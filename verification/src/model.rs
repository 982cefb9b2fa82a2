//! Model runtime bookkeeping: the lifecycle state of each model, the VRAM budget
//! decisions around loading, and the deterministic mock provider.
use crate::keyed::{
    distinct_keys, lemma_pairs_map_at, lemma_pairs_map_dom, lemma_pairs_map_update, pairs_map,
};
use crate::clock::{duration_nanos, span_from_secs};
use crate::memory::types::texts;
use crate::text::{
    chars_of, decimal, find_piece, has_piece, join2, join3, join4, lowercase, owned, str_eq, to_lower,
    u64_to_decimal,
};
use std::time::Duration;
use vstd::prelude::*;

verus! {

/// Configuration parameters for the model runtime.
#[derive(Clone, Debug, PartialEq, Eq)]
pub struct ModelRuntimeConfig {
    pub max_vram_bytes: usize,
    pub default_model: String,
}

impl Default for ModelRuntimeConfig {
    /// A 4.8 GB VRAM budget (all of the address space, where that is smaller) and
    /// the `qwen-7b-gguf` model.
    fn default() -> (c: Self)
        ensures
            c.max_vram_bytes == if usize::MAX >= 4_800_000_000 {
                4_800_000_000
            } else {
                usize::MAX as int
            },
            c.default_model@ == "qwen-7b-gguf"@,
    {
        let budget: u64 = 4_800_000_000;
        let max_vram_bytes: usize = if (usize::MAX as u64) >= budget {
            budget as usize
        } else {
            usize::MAX
        };
        ModelRuntimeConfig { max_vram_bytes, default_model: owned("qwen-7b-gguf") }
    }
}

/// Lifecycle state of a model within the runtime.
#[derive(Clone, Copy, Debug, PartialEq, Eq)]
pub enum ModelState {
    Unloaded,
    Loading,
    Ready,
    Inferring,
    Error,
}

/// Reason for inference completion.
#[derive(Clone, Copy, Debug, PartialEq, Eq)]
pub enum FinishReason {
    Stop,
    Length,
    ContentFilter,
    Error,
}

/// Token accounting metrics for an inference completion.
#[derive(Clone, Copy, Debug, PartialEq, Eq)]
pub struct TokenUsage {
    pub prompt_tokens: usize,
    pub completion_tokens: usize,
    pub total_tokens: usize,
}

/// Completion response payload returned from a model provider.
#[derive(Clone, Debug, PartialEq, Eq)]
pub struct ModelResponse {
    pub text: String,
    pub tokens_generated: usize,
    pub finish_reason: FinishReason,
    pub usage: Option<TokenUsage>,
}

#[verifier::external_type_specification]
#[verifier::external_body]
#[verifier::reject_recursive_types(T)]
pub struct ExReceiver<T>(std::sync::mpsc::Receiver<T>);

/// Completion response with its latency breakdown.
#[derive(Clone, Debug, PartialEq, Eq)]
pub struct DetailedModelResponse {
    pub response: ModelResponse,
    pub ttft: Duration,
    pub token_generation_duration: Duration,
}

/// Token streaming handle wrapping a token receiver.
#[derive(Debug)]
pub struct TokenStream {
    pub receiver: std::sync::mpsc::Receiver<String>,
}

/// Timing breakdown of an inference, phase by phase.
#[derive(Clone, Debug)]
pub struct InferenceLatencyBreakdown {
    pub tokenization_duration: Duration,
    pub ttft: Duration,
    pub subsequent_token_total_duration: Duration,
    pub subsequent_token_avg_duration: Duration,
    pub decoding_duration: Duration,
    pub total_duration: Duration,
    pub response: ModelResponse,
}

/// Errors produced by the model runtime.
#[derive(Clone, Debug, PartialEq, Eq)]
pub enum ModelRuntimeError {
    ModelNotFound { model_name: String },
    ProviderNotFound { provider_name: String },
    LoadFailed { message: String },
    InferenceFailed { message: String },
    VramExceeded { limit_bytes: usize, requested_bytes: usize },
    ConfigError { message: String },
    LockError { message: String },
}

/// The text of a [`ModelRuntimeError`].
pub open spec fn model_error_text(e: ModelRuntimeError) -> Seq<char> {
    match e {
        ModelRuntimeError::ModelNotFound { model_name } => "Model not found: "@ + model_name@,
        ModelRuntimeError::ProviderNotFound { provider_name } => "Provider not found: "@
            + provider_name@,
        ModelRuntimeError::LoadFailed { message } => "Model load failed: "@ + message@,
        ModelRuntimeError::InferenceFailed { message } => "Model inference failed: "@ + message@,
        ModelRuntimeError::VramExceeded { limit_bytes, requested_bytes } =>
            "GPU VRAM limit exceeded: limit "@ + decimal(limit_bytes as nat) + " bytes, requested "@
                + decimal(requested_bytes as nat) + " bytes"@,
        ModelRuntimeError::ConfigError { message } => "Model runtime configuration error: "@
            + message@,
        ModelRuntimeError::LockError { message } => "Model runtime lock error: "@ + message@,
    }
}

impl ModelRuntimeError {
    /// Renders the error as text.
    pub fn to_string(&self) -> (s: String)
        ensures
            s@ == model_error_text(*self),
    {
        match self {
            ModelRuntimeError::ModelNotFound { model_name } => join2(
                "Model not found: ",
                model_name.as_str(),
            ),
            ModelRuntimeError::ProviderNotFound { provider_name } => join2(
                "Provider not found: ",
                provider_name.as_str(),
            ),
            ModelRuntimeError::LoadFailed { message } => join2(
                "Model load failed: ",
                message.as_str(),
            ),
            ModelRuntimeError::InferenceFailed { message } => join2(
                "Model inference failed: ",
                message.as_str(),
            ),
            ModelRuntimeError::VramExceeded { limit_bytes, requested_bytes } => {
                let limit = u64_to_decimal(*limit_bytes as u64);
                let requested = u64_to_decimal(*requested_bytes as u64);
                let mut s = join4(
                    "GPU VRAM limit exceeded: limit ",
                    limit.as_str(),
                    " bytes, requested ",
                    requested.as_str(),
                );
                s.append(" bytes");
                proof {
                    reveal_strlit(" bytes");
                }
                s
            },
            ModelRuntimeError::ConfigError { message } => join2(
                "Model runtime configuration error: ",
                message.as_str(),
            ),
            ModelRuntimeError::LockError { message } => join2(
                "Model runtime lock error: ",
                message.as_str(),
            ),
        }
    }
}

/// How a load that the provider carried out ends.
#[derive(Clone, Debug, PartialEq, Eq)]
pub enum LoadVerdict {
    /// The model is ready.
    Loaded,
    /// The model went over the VRAM budget: unload it again and report the error.
    Rejected(ModelRuntimeError),
    /// The provider failed: report its error.
    Failed(ModelRuntimeError),
}

/// The registered provider names, the lifecycle state of each model, and the
/// VRAM budget that loads are held to.
#[derive(Debug)]
pub struct ModelLedger {
    config: ModelRuntimeConfig,
    providers: Vec<String>,
    states: Vec<(String, ModelState)>,
}

/// The model states as (name, state) pairs.
spec fn state_pairs(v: Seq<(String, ModelState)>) -> Seq<(Seq<char>, ModelState)> {
    v.map_values(|p: (String, ModelState)| (p.0@, p.1))
}

impl ModelLedger {
    /// The configuration.
    pub closed spec fn config_view(&self) -> ModelRuntimeConfig {
        self.config
    }

    /// The registered provider names.
    pub closed spec fn providers(&self) -> Set<Seq<char>> {
        texts(self.providers@).to_set()
    }

    /// The lifecycle state of each model that has one.
    pub closed spec fn states(&self) -> Map<Seq<char>, ModelState> {
        pairs_map(state_pairs(self.states@))
    }

    /// Well-formedness: each model is listed once.
    pub closed spec fn wf(&self) -> bool {
        distinct_keys(state_pairs(self.states@))
    }

    /// A ledger without providers or models.
    pub fn new(config: ModelRuntimeConfig) -> (l: ModelLedger)
        ensures
            l.wf(),
            l.config_view() == config,
            l.providers() == Set::<Seq<char>>::empty(),
            l.states() == Map::<Seq<char>, ModelState>::empty(),
    {
        let l = ModelLedger { config, providers: Vec::new(), states: Vec::new() };
        assert(texts(l.providers@) =~= Seq::<Seq<char>>::empty());
        assert(state_pairs(l.states@) =~= Seq::<(Seq<char>, ModelState)>::empty());
        assert(l.providers() =~= Set::<Seq<char>>::empty());
        l
    }

    /// Returns the configuration.
    pub fn config(&self) -> (c: &ModelRuntimeConfig)
        ensures
            *c == self.config_view(),
    {
        &self.config
    }

    /// Whether a provider named `name` is registered.
    pub fn has_provider(&self, name: &str) -> (r: bool)
        ensures
            r == self.providers().contains(name@),
    {
        let mut i: usize = 0;
        while i < self.providers.len()
            invariant
                i <= self.providers@.len(),
                forall|a: int| 0 <= a < i ==> self.providers@[a]@ != name@,
            decreases self.providers@.len() - i,
        {
            if str_eq(self.providers[i].as_str(), name) {
                assert(texts(self.providers@)[i as int] == name@);
                return true;
            }
            i = i + 1;
        }
        proof {
            if self.providers().contains(name@) {
                let a = choose|a: int|
                    0 <= a < texts(self.providers@).len() && texts(self.providers@)[a] == name@;
                assert(self.providers@[a]@ == name@);
            }
        }
        false
    }

    /// Registers a provider name; registering it again changes nothing.
    pub fn register_provider(&mut self, name: &str)
        ensures
            final(self).providers() == old(self).providers().insert(name@),
            final(self).states() == old(self).states(),
            final(self).wf() == old(self).wf(),
            final(self).config_view() == old(self).config_view(),
    {
        if self.has_provider(name) {
            assert(old(self).providers().insert(name@) =~= old(self).providers());
            return;
        }
        let ghost before = texts(self.providers@);
        self.providers.push(owned(name));
        assert(texts(self.providers@) =~= before.push(name@));
        proof {
            before.lemma_push_to_set_commute(name@);
        }
    }

    /// Reports a provider that is not registered.
    pub fn require_provider(&self, name: &str) -> (r: Result<(), ModelRuntimeError>)
        ensures
            self.providers().contains(name@) ==> r is Ok,
            !self.providers().contains(name@) ==> (r matches Err(
                ModelRuntimeError::ProviderNotFound { provider_name },
            ) && provider_name@ == name@),
    {
        if self.has_provider(name) {
            Ok(())
        } else {
            Err(ModelRuntimeError::ProviderNotFound { provider_name: owned(name) })
        }
    }

    /// The lifecycle state of model `name`, if it has one.
    pub fn model_state(&self, name: &str) -> (r: Option<ModelState>)
        requires
            self.wf(),
        ensures
            self.states().contains_key(name@) ==> r == Some(self.states()[name@]),
            !self.states().contains_key(name@) ==> r is None,
    {
        let ghost sv = state_pairs(self.states@);
        let mut i: usize = 0;
        while i < self.states.len()
            invariant
                i <= self.states@.len(),
                sv == state_pairs(self.states@),
                distinct_keys(sv),
                forall|a: int| 0 <= a < i ==> sv[a].0 != name@,
            decreases self.states@.len() - i,
        {
            if str_eq(self.states[i].0.as_str(), name) {
                proof {
                    lemma_pairs_map_at(sv, i as int);
                }
                return Some(self.states[i].1);
            }
            i = i + 1;
        }
        proof {
            lemma_pairs_map_dom(sv, name@);
        }
        None
    }

    /// Records `state` as the lifecycle state of model `name`.
    fn set_model_state(&mut self, name: &str, state: ModelState)
        requires
            old(self).wf(),
        ensures
            final(self).wf(),
            final(self).states() == old(self).states().insert(name@, state),
            final(self).providers() == old(self).providers(),
            final(self).config_view() == old(self).config_view(),
    {
        let ghost sv = state_pairs(self.states@);
        let mut i: usize = 0;
        while i < self.states.len() && !str_eq(self.states[i].0.as_str(), name)
            invariant
                i <= self.states@.len(),
                sv == state_pairs(self.states@),
                forall|a: int| 0 <= a < i ==> sv[a].0 != name@,
            decreases self.states@.len() - i,
        {
            i = i + 1;
        }
        if i < self.states.len() {
            self.states[i].1 = state;
            proof {
                assert(state_pairs(self.states@) =~= sv.update(i as int, (sv[i as int].0, state)));
                lemma_pairs_map_update(sv, i as int, state);
            }
        } else {
            self.states.push((owned(name), state));
            proof {
                assert(state_pairs(self.states@) =~= sv.push((name@, state)));
                assert(state_pairs(self.states@).drop_last() =~= sv);
            }
        }
    }

    /// The start of a load of `model` through `provider`, given whether the
    /// provider supports the model and the VRAM in use: an unknown provider or an
    /// unsupported model is reported and nothing changes; otherwise the model is
    /// loading, unless the VRAM in use is already over the budget, which fails
    /// the model.
    pub fn begin_load(&mut self, provider: &str, model: &str, supported: bool, vram_in_use: usize) -> (r:
        Result<(), ModelRuntimeError>)
        requires
            old(self).wf(),
        ensures
            final(self).wf(),
            final(self).providers() == old(self).providers(),
            final(self).config_view() == old(self).config_view(),
            !old(self).providers().contains(provider@) ==> {
                &&& r matches Err(ModelRuntimeError::ProviderNotFound { provider_name })
                &&& provider_name@ == provider@
                &&& final(self).states() == old(self).states()
            },
            old(self).providers().contains(provider@) && !supported ==> {
                &&& r matches Err(ModelRuntimeError::ModelNotFound { model_name })
                &&& model_name@ == model@
                &&& final(self).states() == old(self).states()
            },
            old(self).providers().contains(provider@) && supported && vram_in_use
                > old(self).config_view().max_vram_bytes ==> {
                &&& r == Err::<(), ModelRuntimeError>(
                    ModelRuntimeError::VramExceeded {
                        limit_bytes: old(self).config_view().max_vram_bytes,
                        requested_bytes: vram_in_use,
                    },
                )
                &&& final(self).states() == old(self).states().insert(model@, ModelState::Error)
            },
            old(self).providers().contains(provider@) && supported && vram_in_use <= old(
                self,
            ).config_view().max_vram_bytes ==> {
                &&& r is Ok
                &&& final(self).states() == old(self).states().insert(model@, ModelState::Loading)
            },
    {
        if !self.has_provider(provider) {
            return Err(ModelRuntimeError::ProviderNotFound { provider_name: owned(provider) });
        }
        if !supported {
            return Err(ModelRuntimeError::ModelNotFound { model_name: owned(model) });
        }
        self.set_model_state(model, ModelState::Loading);
        if vram_in_use > self.config.max_vram_bytes {
            self.set_model_state(model, ModelState::Error);
            assert(self.states() =~= old(self).states().insert(model@, ModelState::Error));
            return Err(
                ModelRuntimeError::VramExceeded {
                    limit_bytes: self.config.max_vram_bytes,
                    requested_bytes: vram_in_use,
                },
            );
        }
        Ok(())
    }

    /// The end of a load of `model`, given what the provider answered and the
    /// VRAM in use afterwards: a provider error fails the model; going over the
    /// budget fails it too and asks for the model to be unloaded; otherwise the
    /// model is ready.
    pub fn finish_load(&mut self, model: &str, loaded: Result<(), ModelRuntimeError>, vram_in_use: usize) -> (v:
        LoadVerdict)
        requires
            old(self).wf(),
        ensures
            final(self).wf(),
            final(self).providers() == old(self).providers(),
            final(self).config_view() == old(self).config_view(),
            loaded matches Err(e) ==> {
                &&& v == LoadVerdict::Failed(e)
                &&& final(self).states() == old(self).states().insert(model@, ModelState::Error)
            },
            loaded is Ok && vram_in_use > old(self).config_view().max_vram_bytes ==> {
                &&& v == LoadVerdict::Rejected(
                    ModelRuntimeError::VramExceeded {
                        limit_bytes: old(self).config_view().max_vram_bytes,
                        requested_bytes: vram_in_use,
                    },
                )
                &&& final(self).states() == old(self).states().insert(model@, ModelState::Error)
            },
            loaded is Ok && vram_in_use <= old(self).config_view().max_vram_bytes ==> {
                &&& v == LoadVerdict::Loaded
                &&& final(self).states() == old(self).states().insert(model@, ModelState::Ready)
            },
    {
        match loaded {
            Err(e) => {
                self.set_model_state(model, ModelState::Error);
                LoadVerdict::Failed(e)
            },
            Ok(_) => {
                if vram_in_use > self.config.max_vram_bytes {
                    self.set_model_state(model, ModelState::Error);
                    LoadVerdict::Rejected(
                        ModelRuntimeError::VramExceeded {
                            limit_bytes: self.config.max_vram_bytes,
                            requested_bytes: vram_in_use,
                        },
                    )
                } else {
                    self.set_model_state(model, ModelState::Ready);
                    LoadVerdict::Loaded
                }
            },
        }
    }

    /// The end of an unload of `model`, given whether any provider supported it:
    /// if none did the model is reported unknown and nothing changes; otherwise
    /// it is unloaded.
    pub fn finish_unload(&mut self, model: &str, unloaded_any: bool) -> (r: Result<
        (),
        ModelRuntimeError,
    >)
        requires
            old(self).wf(),
        ensures
            final(self).wf(),
            final(self).providers() == old(self).providers(),
            final(self).config_view() == old(self).config_view(),
            !unloaded_any ==> {
                &&& r matches Err(ModelRuntimeError::ModelNotFound { model_name })
                &&& model_name@ == model@
                &&& final(self).states() == old(self).states()
            },
            unloaded_any ==> {
                &&& r is Ok
                &&& final(self).states() == old(self).states().insert(model@, ModelState::Unloaded)
            },
    {
        if !unloaded_any {
            return Err(ModelRuntimeError::ModelNotFound { model_name: owned(model) });
        }
        self.set_model_state(model, ModelState::Unloaded);
        Ok(())
    }

    /// The start of an inference on `model` through `provider`: an unknown
    /// provider is reported and nothing changes; otherwise the model is inferring.
    pub fn begin_inference(&mut self, provider: &str, model: &str) -> (r: Result<
        (),
        ModelRuntimeError,
    >)
        requires
            old(self).wf(),
        ensures
            final(self).wf(),
            final(self).providers() == old(self).providers(),
            final(self).config_view() == old(self).config_view(),
            !old(self).providers().contains(provider@) ==> {
                &&& r matches Err(ModelRuntimeError::ProviderNotFound { provider_name })
                &&& provider_name@ == provider@
                &&& final(self).states() == old(self).states()
            },
            old(self).providers().contains(provider@) ==> {
                &&& r is Ok
                &&& final(self).states() == old(self).states().insert(model@, ModelState::Inferring)
            },
    {
        if !self.has_provider(provider) {
            return Err(ModelRuntimeError::ProviderNotFound { provider_name: owned(provider) });
        }
        self.set_model_state(model, ModelState::Inferring);
        Ok(())
    }

    /// The end of an inference on `model`: ready again after success, failed
    /// otherwise.
    pub fn finish_inference(&mut self, model: &str, succeeded: bool)
        requires
            old(self).wf(),
        ensures
            final(self).wf(),
            final(self).providers() == old(self).providers(),
            final(self).config_view() == old(self).config_view(),
            final(self).states() == old(self).states().insert(
                model@,
                if succeeded {
                    ModelState::Ready
                } else {
                    ModelState::Error
                },
            ),
    {
        if succeeded {
            self.set_model_state(model, ModelState::Ready);
        } else {
            self.set_model_state(model, ModelState::Error);
        }
    }
}

/// The sum of the values.
pub open spec fn sum_of(v: Seq<usize>) -> nat
    decreases v.len(),
{
    if v.len() == 0 {
        0
    } else {
        sum_of(v.drop_last()) + v.last() as nat
    }
}

/// The VRAM in use across providers: the sum of their reported usages.
pub fn total_vram(usages: &Vec<usize>) -> (n: usize)
    requires
        sum_of(usages@) <= usize::MAX,
    ensures
        n == sum_of(usages@),
{
    let mut n: usize = 0;
    let mut i: usize = 0;
    assert(usages@.take(0) =~= Seq::<usize>::empty());
    while i < usages.len()
        invariant
            i <= usages@.len(),
            n == sum_of(usages@.take(i as int)),
            sum_of(usages@) <= usize::MAX,
        decreases usages@.len() - i,
    {
        assert(usages@.take(i + 1).drop_last() =~= usages@.take(i as int));
        proof {
            lemma_sum_prefix(usages@, i + 1);
        }
        n = n + usages[i];
        i = i + 1;
    }
    assert(usages@.take(i as int) =~= usages@);
    n
}

/// A prefix sums to at most the whole.
proof fn lemma_sum_prefix(v: Seq<usize>, k: int)
    requires
        0 <= k <= v.len(),
    ensures
        sum_of(v.take(k)) <= sum_of(v),
    decreases v.len(),
{
    if k < v.len() {
        assert(v.drop_last().take(k) =~= v.take(k));
        lemma_sum_prefix(v.drop_last(), k);
    } else {
        assert(v.take(k) =~= v);
    }
}

// ---------------------------------------------------------------------------
// The mock provider
// ---------------------------------------------------------------------------

/// The number of UTF-8 bytes that encode `c`.
pub open spec fn utf8_width(c: char) -> nat {
    if (c as u32) < 0x80 {
        1
    } else if (c as u32) < 0x800 {
        2
    } else if (c as u32) < 0x10000 {
        3
    } else {
        4
    }
}

/// The number of UTF-8 bytes that encode `s`.
pub open spec fn utf8_len(s: Seq<char>) -> nat
    decreases s.len(),
{
    if s.len() == 0 {
        0
    } else {
        utf8_len(s.drop_last()) + utf8_width(s.last())
    }
}

/// `str::len`: the length of the text in bytes of its UTF-8 encoding.
#[verifier::external_body]
fn byte_len(s: &str) -> (n: usize)
    ensures
        n == utf8_len(s@),
{
    s.len()
}

/// The text of a mock completion for `prompt`.
pub open spec fn mock_completion(prompt: Seq<char>) -> Seq<char> {
    "Mock completion for prompt: '"@ + prompt + "'"@
}

/// A deterministic model provider for offline use: it supports every model,
/// takes 500 MB of VRAM while loaded, and answers with fixed texts.
#[derive(Debug)]
pub struct MockModelProvider {
    name: String,
    vram_bytes: usize,
    is_loaded: bool,
}

impl MockModelProvider {
    /// The provider name.
    pub closed spec fn name_view(&self) -> Seq<char> {
        self.name@
    }

    /// Whether a model is loaded.
    pub closed spec fn loaded(&self) -> bool {
        self.is_loaded
    }

    /// The VRAM the provider reports in use.
    pub closed spec fn vram_view(&self) -> usize {
        self.vram_bytes
    }

    /// A provider named `mock`, with nothing loaded.
    pub fn new() -> (p: MockModelProvider)
        ensures
            p.name_view() == "mock"@,
            !p.loaded(),
            p.vram_view() == 0,
    {
        Self::with_name("mock")
    }

    /// A provider named `name`, with nothing loaded.
    pub fn with_name(name: &str) -> (p: MockModelProvider)
        ensures
            p.name_view() == name@,
            !p.loaded(),
            p.vram_view() == 0,
    {
        MockModelProvider { name: owned(name), vram_bytes: 0, is_loaded: false }
    }

    /// The provider name.
    pub fn provider_name(&self) -> (r: &str)
        ensures
            r@ == self.name_view(),
    {
        self.name.as_str()
    }

    /// Every model is supported.
    pub fn is_model_supported(&self, _model_name: &str) -> (r: bool)
        ensures
            r,
    {
        true
    }

    /// Loads a model: 500 MB of VRAM are taken.
    pub fn load_model(&mut self, _model_name: &str) -> (r: Result<(), ModelRuntimeError>)
        ensures
            r is Ok,
            final(self).loaded(),
            final(self).vram_view() == 500_000_000,
            final(self).name_view() == old(self).name_view(),
    {
        self.vram_bytes = 500_000_000;
        self.is_loaded = true;
        Ok(())
    }

    /// Unloads the model: no VRAM is taken.
    pub fn unload_model(&mut self, _model_name: &str) -> (r: Result<(), ModelRuntimeError>)
        ensures
            r is Ok,
            !final(self).loaded(),
            final(self).vram_view() == 0,
            final(self).name_view() == old(self).name_view(),
    {
        self.vram_bytes = 0;
        self.is_loaded = false;
        Ok(())
    }

    /// The VRAM in use.
    pub fn current_vram_usage_bytes(&self) -> (n: usize)
        ensures
            n == self.vram_view(),
    {
        self.vram_bytes
    }

    /// Answers a prompt: without a loaded model the inference fails; otherwise
    /// the completion quotes the prompt, counts a quarter of the prompt's bytes
    /// plus one as prompt tokens, and eight completion tokens.
    pub fn generate(&self, model_name: &str, prompt: &str) -> (r: Result<ModelResponse, ModelRuntimeError>)
        ensures
            !self.loaded() ==> (r matches Err(ModelRuntimeError::InferenceFailed { message })
                && message@ == "Mock model '"@ + model_name@ + "' not loaded"@),
            self.loaded() ==> (r matches Ok(resp) && resp.text@ == mock_completion(prompt@)
                && resp.tokens_generated == 8 && resp.finish_reason == FinishReason::Stop
                && resp.usage == Some(
                TokenUsage {
                    prompt_tokens: (utf8_len(prompt@) / 4 + 1) as usize,
                    completion_tokens: 8,
                    total_tokens: (utf8_len(prompt@) / 4 + 9) as usize,
                },
            )),
    {
        if !self.is_loaded {
            return Err(
                ModelRuntimeError::InferenceFailed {
                    message: join3("Mock model '", model_name, "' not loaded"),
                },
            );
        }
        let prompt_tokens = byte_len(prompt) / 4 + 1;
        let completion_tokens: usize = 8;
        let total_tokens = prompt_tokens + completion_tokens;
        Ok(
            ModelResponse {
                text: join3("Mock completion for prompt: '", prompt, "'"),
                tokens_generated: completion_tokens,
                finish_reason: FinishReason::Stop,
                usage: Some(TokenUsage { prompt_tokens, completion_tokens, total_tokens }),
            },
        )
    }

    /// The tokens a stream for `model_name` delivers, in order: `Mock `,
    /// `stream `, `for ` and the model name; without a loaded model the inference
    /// fails.
    pub fn stream_tokens(&self, model_name: &str) -> (r: Result<Vec<String>, ModelRuntimeError>)
        ensures
            !self.loaded() ==> (r matches Err(ModelRuntimeError::InferenceFailed { message })
                && message@ == "Mock model '"@ + model_name@ + "' not loaded"@),
            self.loaded() ==> (r matches Ok(tokens) && texts(tokens@) == seq![
                "Mock "@,
                "stream "@,
                "for "@,
                model_name@,
            ]),
    {
        if !self.is_loaded {
            return Err(
                ModelRuntimeError::InferenceFailed {
                    message: join3("Mock model '", model_name, "' not loaded"),
                },
            );
        }
        let mut tokens: Vec<String> = Vec::new();
        tokens.push(owned("Mock "));
        tokens.push(owned("stream "));
        tokens.push(owned("for "));
        tokens.push(owned(model_name));
        assert(texts(tokens@) =~= seq!["Mock "@, "stream "@, "for "@, model_name@]);
        Ok(tokens)
    }
}

// ---------------------------------------------------------------------------
// The Qwen adapter without an inference backend
// ---------------------------------------------------------------------------

/// Whether the Qwen adapter supports a model: `qwen-7b-gguf`, `qwen-7b`, or any
/// name that contains `qwen` in any letter case.
pub open spec fn qwen_supports(model_name: Seq<char>) -> bool {
    model_name == "qwen-7b-gguf"@ || model_name == "qwen-7b"@ || has_piece(
        lowercase(model_name),
        "qwen"@,
    )
}

/// The VRAM a loaded Qwen 7B model is estimated to take: 4.3 GB (all of the
/// address space, where that is smaller).
pub open spec fn qwen_vram_estimate() -> int {
    if usize::MAX >= 4_300_000_000 {
        4_300_000_000
    } else {
        usize::MAX as int
    }
}

/// The text of the answer to `prompt` from a model with `tensors` tensors.
pub open spec fn qwen_completion(prompt: Seq<char>, tensors: nat) -> Seq<char> {
    "Qwen 7B GGUF output for prompt: '"@ + prompt + "' (tensors: "@ + decimal(tensors) + ")"@
}

/// The local Qwen 7B GGUF adapter's bookkeeping when no inference backend is
/// built in: which model file it serves, whether it is loaded, and the VRAM and
/// tensor counts it reports. Without a backend its answers are deterministic.
#[derive(Debug)]
pub struct QwenGgufAdapter {
    model_path: String,
    vram_bytes: usize,
    is_loaded: bool,
    tensor_count: usize,
}

impl QwenGgufAdapter {
    /// The model file path.
    pub closed spec fn path_view(&self) -> Seq<char> {
        self.model_path@
    }

    /// Whether the model is loaded.
    pub closed spec fn loaded(&self) -> bool {
        self.is_loaded
    }

    /// The VRAM the adapter reports in use.
    pub closed spec fn vram_view(&self) -> usize {
        self.vram_bytes
    }

    /// The number of tensors read from the model file.
    pub closed spec fn tensors_view(&self) -> usize {
        self.tensor_count
    }

    /// An adapter for `./models/qwen-7b-instruct-q4_k_m.gguf`, not loaded.
    pub fn new() -> (a: QwenGgufAdapter)
        ensures
            a.path_view() == "./models/qwen-7b-instruct-q4_k_m.gguf"@,
            !a.loaded(),
            a.vram_view() == 0,
            a.tensors_view() == 0,
    {
        Self::with_model_path("./models/qwen-7b-instruct-q4_k_m.gguf")
    }

    /// An adapter for the model file at `path`, not loaded.
    pub fn with_model_path(path: &str) -> (a: QwenGgufAdapter)
        ensures
            a.path_view() == path@,
            !a.loaded(),
            a.vram_view() == 0,
            a.tensors_view() == 0,
    {
        QwenGgufAdapter { model_path: owned(path), vram_bytes: 0, is_loaded: false, tensor_count: 0 }
    }

    /// The target model name.
    pub fn model_name(&self) -> (r: &str)
        ensures
            r@ == "qwen-7b-gguf"@,
    {
        "qwen-7b-gguf"
    }

    /// The model file path.
    pub fn model_path(&self) -> (r: &str)
        ensures
            r@ == self.path_view(),
    {
        self.model_path.as_str()
    }

    /// The number of tensors read from the model file.
    pub fn tensor_count(&self) -> (n: usize)
        ensures
            n == self.tensors_view(),
    {
        self.tensor_count
    }

    /// Without a backend nothing runs on the GPU.
    pub fn is_cuda_active(&self) -> (r: bool)
        ensures
            !r,
    {
        false
    }

    /// Without a backend no layers are offloaded to the GPU.
    pub fn gpu_layers_offloaded(&self) -> (n: usize)
        ensures
            n == 0,
    {
        0
    }

    /// The backend description: without an inference backend, `Mock Provider`.
    pub fn backend_name(&self) -> (r: &'static str)
        ensures
            r@ == "Mock Provider"@,
    {
        "Mock Provider"
    }

    /// The provider name, `qwen-gguf`.
    pub fn provider_name(&self) -> (r: &'static str)
        ensures
            r@ == "qwen-gguf"@,
    {
        "qwen-gguf"
    }

    /// Whether a model is supported: `qwen-7b-gguf`, `qwen-7b`, or any name that
    /// contains `qwen` in any letter case.
    pub fn is_model_supported(&self, model_name: &str) -> (r: bool)
        ensures
            r == qwen_supports(model_name@),
    {
        proof {
            reveal_strlit("qwen-7b-gguf");
            reveal_strlit("qwen-7b");
            reveal_strlit("qwen");
        }
        if str_eq(model_name, "qwen-7b-gguf") || str_eq(model_name, "qwen-7b") {
            return true;
        }
        let lower = to_lower(model_name);
        let cs = chars_of(lower.as_str());
        find_piece(&cs, "qwen")
    }

    /// Loads `model_name`, given whether the model file exists: an unsupported
    /// model or a missing file is reported and nothing changes; otherwise the
    /// model is loaded and its estimated 4.3 GB of VRAM are in use.
    pub fn load_model(&mut self, model_name: &str, file_exists: bool) -> (r: Result<(), ModelRuntimeError>)
        ensures
            !qwen_supports(model_name@) ==> (r matches Err(
                ModelRuntimeError::ModelNotFound { model_name: m },
            ) && m@ == model_name@ && *final(self) == *old(self)),
            qwen_supports(model_name@) && !file_exists ==> (r matches Err(
                ModelRuntimeError::LoadFailed { message },
            ) && message@ == "Qwen 7B GGUF model file not found at path: "@ + old(self).path_view()
                + ". Local model file is required."@ && *final(self) == *old(self)),
            qwen_supports(model_name@) && file_exists ==> {
                &&& r is Ok
                &&& final(self).loaded()
                &&& final(self).vram_view() == qwen_vram_estimate()
                &&& final(self).path_view() == old(self).path_view()
                &&& final(self).tensors_view() == old(self).tensors_view()
            },
    {
        if !self.is_model_supported(model_name) {
            return Err(ModelRuntimeError::ModelNotFound { model_name: owned(model_name) });
        }
        if !file_exists {
            return Err(
                ModelRuntimeError::LoadFailed {
                    message: join3(
                        "Qwen 7B GGUF model file not found at path: ",
                        self.model_path.as_str(),
                        ". Local model file is required.",
                    ),
                },
            );
        }
        let estimate: u64 = 4_300_000_000;
        self.vram_bytes = if (usize::MAX as u64) >= estimate {
            estimate as usize
        } else {
            usize::MAX
        };
        self.is_loaded = true;
        Ok(())
    }

    /// Unloads the model: no VRAM and no tensors are reported.
    pub fn unload_model(&mut self, _model_name: &str) -> (r: Result<(), ModelRuntimeError>)
        ensures
            r is Ok,
            !final(self).loaded(),
            final(self).vram_view() == 0,
            final(self).tensors_view() == 0,
            final(self).path_view() == old(self).path_view(),
    {
        self.vram_bytes = 0;
        self.tensor_count = 0;
        self.is_loaded = false;
        Ok(())
    }

    /// The VRAM in use.
    pub fn current_vram_usage_bytes(&self) -> (n: usize)
        ensures
            n == self.vram_view(),
    {
        self.vram_bytes
    }

    /// Answers a prompt without a backend: the model must be loaded; the answer
    /// quotes the prompt and the tensor count, counts a quarter of the prompt's
    /// bytes plus one as prompt tokens, and sixteen completion tokens.
    pub fn generate(&self, model_name: &str, prompt: &str) -> (r: Result<ModelResponse, ModelRuntimeError>)
        ensures
            !self.loaded() ==> (r matches Err(ModelRuntimeError::InferenceFailed { message })
                && message@ == "Model '"@ + model_name@
                + "' must be loaded before calling generate()"@),
            self.loaded() ==> (r matches Ok(resp) && resp.text@ == qwen_completion(
                prompt@,
                self.tensors_view() as nat,
            ) && resp.tokens_generated == 16 && resp.finish_reason == FinishReason::Stop
                && resp.usage == Some(
                TokenUsage {
                    prompt_tokens: (utf8_len(prompt@) / 4 + 1) as usize,
                    completion_tokens: 16,
                    total_tokens: (utf8_len(prompt@) / 4 + 17) as usize,
                },
            )),
    {
        if !self.is_loaded {
            return Err(
                ModelRuntimeError::InferenceFailed {
                    message: join3(
                        "Model '",
                        model_name,
                        "' must be loaded before calling generate()",
                    ),
                },
            );
        }
        let prompt_tokens = byte_len(prompt) / 4 + 1;
        let completion_tokens: usize = 16;
        let total_tokens = prompt_tokens + completion_tokens;
        let tensors = u64_to_decimal(self.tensor_count as u64);
        let mut text = join4(
            "Qwen 7B GGUF output for prompt: '",
            prompt,
            "' (tensors: ",
            tensors.as_str(),
        );
        text.append(")");
        proof {
            reveal_strlit(")");
        }
        Ok(
            ModelResponse {
                text,
                tokens_generated: completion_tokens,
                finish_reason: FinishReason::Stop,
                usage: Some(TokenUsage { prompt_tokens, completion_tokens, total_tokens }),
            },
        )
    }

    /// Answers a prompt as [`QwenGgufAdapter::generate`] does and reports the
    /// latency of each phase: without a backend there is no tokenization,
    /// first-token, per-token or decoding time, so those spans are zero, and the
    /// total is `total_duration`, the time the caller measured around the call.
    pub fn generate_detailed(&self, model_name: &str, prompt: &str, total_duration: Duration) -> (r: Result<
        InferenceLatencyBreakdown,
        ModelRuntimeError,
    >)
        ensures
            !self.loaded() ==> (r matches Err(ModelRuntimeError::InferenceFailed { message })
                && message@ == "Model '"@ + model_name@
                + "' must be loaded before calling generate()"@),
            self.loaded() ==> (r matches Ok(b) && b.total_duration == total_duration
                && duration_nanos(b.tokenization_duration) == 0 && duration_nanos(b.ttft) == 0
                && duration_nanos(b.subsequent_token_total_duration) == 0 && duration_nanos(
                b.subsequent_token_avg_duration,
            ) == 0 && duration_nanos(b.decoding_duration) == 0 && b.response.text@
                == qwen_completion(prompt@, self.tensors_view() as nat)
                && b.response.tokens_generated == 16 && b.response.finish_reason
                == FinishReason::Stop && b.response.usage == Some(
                TokenUsage {
                    prompt_tokens: (utf8_len(prompt@) / 4 + 1) as usize,
                    completion_tokens: 16,
                    total_tokens: (utf8_len(prompt@) / 4 + 17) as usize,
                },
            )),
    {
        let response = self.generate(model_name, prompt)?;
        let zero = span_from_secs(0);
        Ok(
            InferenceLatencyBreakdown {
                tokenization_duration: zero,
                ttft: zero,
                subsequent_token_total_duration: zero,
                subsequent_token_avg_duration: zero,
                decoding_duration: zero,
                total_duration,
                response,
            },
        )
    }

    /// The tokens a stream delivers without a backend: the words of
    /// `Qwen 7B streamed Candle output (tensors: <n>) for prompt len <bytes>`, each
    /// followed by a space; the model must be loaded.
    pub fn stream_tokens(&self, model_name: &str, prompt: &str) -> (r: Result<Vec<String>, ModelRuntimeError>)
        ensures
            !self.loaded() ==> (r matches Err(ModelRuntimeError::InferenceFailed { message })
                && message@ == "Model '"@ + model_name@
                + "' must be loaded before calling generate_stream()"@),
            self.loaded() ==> (r matches Ok(tokens) && texts(tokens@) == seq![
                "Qwen "@,
                "7B "@,
                "streamed "@,
                "Candle "@,
                "output "@,
                "(tensors: "@,
                decimal(self.tensors_view() as nat) + ") "@,
                "for "@,
                "prompt "@,
                "len "@,
                decimal(utf8_len(prompt@)) + " "@,
            ]),
    {
        if !self.is_loaded {
            return Err(
                ModelRuntimeError::InferenceFailed {
                    message: join3(
                        "Model '",
                        model_name,
                        "' must be loaded before calling generate_stream()",
                    ),
                },
            );
        }
        let tensors = u64_to_decimal(self.tensor_count as u64);
        let bytes = u64_to_decimal(byte_len(prompt) as u64);
        let mut tokens: Vec<String> = Vec::new();
        tokens.push(owned("Qwen "));
        tokens.push(owned("7B "));
        tokens.push(owned("streamed "));
        tokens.push(owned("Candle "));
        tokens.push(owned("output "));
        tokens.push(owned("(tensors: "));
        tokens.push(join2(tensors.as_str(), ") "));
        tokens.push(owned("for "));
        tokens.push(owned("prompt "));
        tokens.push(owned("len "));
        tokens.push(join2(bytes.as_str(), " "));
        assert(texts(tokens@) =~= seq![
            "Qwen "@,
            "7B "@,
            "streamed "@,
            "Candle "@,
            "output "@,
            "(tensors: "@,
            decimal(self.tensors_view() as nat) + ") "@,
            "for "@,
            "prompt "@,
            "len "@,
            decimal(utf8_len(prompt@)) + " "@,
        ]);
        Ok(tokens)
    }
}

} // verus!
