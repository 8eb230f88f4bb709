//! Model routing: task classification (L1/L2), model selection per provider, and the
//! choice of provider for a request.
use vstd::prelude::*;
use vstd::string::StringSliceAdditionalSpecFns;
use super::{LlmError, Message};
use crate::text::{concat2, contains_seq, join_seq, join_strings, lemma_names_push, names_view, owned, starts_with_seq, str_contains, str_starts_with};

verus! {

/// Complexity of a task.
#[derive(PartialEq, Eq, Structural, Clone, Copy, Debug)]
pub enum TaskLevel {
    /// Simple tasks: intents, status queries, short texts.
    L1,
    /// Complex tasks: code, logs, long texts.
    L2,
}

impl Default for TaskLevel {
    fn default() -> (l: TaskLevel)
        ensures
            l == TaskLevel::L1,
    {
        TaskLevel::L1
    }
}

/// The printed name of a level.
pub open spec fn level_text(l: TaskLevel) -> Seq<char> {
    match l {
        TaskLevel::L1 => "L1"@,
        TaskLevel::L2 => "L2"@,
    }
}

fn level_name(l: TaskLevel) -> (s: &'static str)
    ensures
        s@ == level_text(l),
{
    match l {
        TaskLevel::L1 => "L1",
        TaskLevel::L2 => "L2",
    }
}

/// An optional string as characters.
pub open spec fn opt_view(o: Option<String>) -> Option<Seq<char>> {
    match o {
        Some(s) => Some(s@),
        None => None,
    }
}

/// A copy of an optional string.
pub fn copy_opt(o: &Option<String>) -> (r: Option<String>)
    ensures
        opt_view(r) == opt_view(*o),
{
    match o {
        Some(s) => Some(owned(s.as_str())),
        None => None,
    }
}

/// Models of one provider.
#[derive(Debug)]
pub struct ProviderModels {
    /// Fast model, for L1 tasks.
    pub model_flash: Option<String>,
    /// Strong model, for L2 tasks.
    pub model_pro: Option<String>,
    /// Fallback model.
    pub default_model: Option<String>,
}

/// The model for a level: flash for L1, pro for L2, else the default model.
pub open spec fn model_for(m: ProviderModels, level: TaskLevel) -> Option<Seq<char>> {
    let candidate = match level {
        TaskLevel::L1 => opt_view(m.model_flash),
        TaskLevel::L2 => opt_view(m.model_pro),
    };
    match candidate {
        Some(x) => Some(x),
        None => opt_view(m.default_model),
    }
}

impl Default for ProviderModels {
    fn default() -> (m: ProviderModels)
        ensures
            m.model_flash is None,
            m.model_pro is None,
            m.default_model is None,
    {
        ProviderModels { model_flash: None, model_pro: None, default_model: None }
    }
}

impl ProviderModels {
    /// The model for `level`; an invalid-request error naming the level when there is none.
    pub fn select(&self, level: TaskLevel) -> (r: Result<String, LlmError>)
        ensures
            match r {
                Ok(m) => model_for(*self, level) == Some(m@),
                Err(e) => model_for(*self, level) is None && (e matches LlmError::InvalidRequest { message }
                    && message@ == "no model configured for "@ + level_text(level)),
            },
    {
        let candidate = match level {
            TaskLevel::L1 => &self.model_flash,
            TaskLevel::L2 => &self.model_pro,
        };
        match candidate {
            Some(m) => Ok(owned(m.as_str())),
            None => match &self.default_model {
                Some(m) => Ok(owned(m.as_str())),
                None => Err(LlmError::InvalidRequest { message: concat2("no model configured for ", level_name(level)) }),
            },
        }
    }

    /// A copy of these models.
    pub fn copy(&self) -> (c: ProviderModels)
        ensures
            opt_view(c.model_flash) == opt_view(self.model_flash),
            opt_view(c.model_pro) == opt_view(self.model_pro),
            opt_view(c.default_model) == opt_view(self.default_model),
            forall|l: TaskLevel| model_for(c, l) == model_for(*self, l),
    {
        ProviderModels {
            model_flash: copy_opt(&self.model_flash),
            model_pro: copy_opt(&self.model_pro),
            default_model: copy_opt(&self.default_model),
        }
    }
}

/// Routing settings.
#[derive(Debug, Clone, Copy)]
pub struct ModelRouterConfig {
    pub default_level: TaskLevel,
    pub max_tokens_l1: u32,
    pub max_tokens_l2: u32,
}

impl Default for ModelRouterConfig {
    fn default() -> (c: ModelRouterConfig)
        ensures
            c.default_level == TaskLevel::L1,
            c.max_tokens_l1 == 1024,
            c.max_tokens_l2 == 4096,
    {
        ModelRouterConfig { default_level: TaskLevel::L1, max_tokens_l1: 1024, max_tokens_l2: 4096 }
    }
}

/// The provider used when none is configured: every call fails.
pub struct DummyProvider;

impl DummyProvider {
    /// `dummy`.
    pub fn provider_id(&self) -> (s: &'static str)
        ensures
            s@ == "dummy"@,
    {
        "dummy"
    }

    /// The error every call gets: provider `dummy`, status 503.
    pub fn llm_call_error(&self) -> (e: LlmError)
        ensures
            e matches LlmError::Provider { provider, status, code, message } && provider@ == "dummy"@
                && status == Some(503u16) && code is None && message@ == "No LLM provider configured"@,
    {
        LlmError::Provider {
            provider: owned("dummy"),
            status: Some(503),
            code: None,
            message: owned("No LLM provider configured"),
        }
    }
}

/// Keywords that mark a complex task.
pub open spec fn complex_keywords() -> Seq<Seq<char>> {
    seq!["分析"@, "analyze"@, "日志"@, "log"@, "debug"@, "故障"@, "root cause"@]
}

/// L2 for a prompt of at least 500 UTF-8 bytes or one containing a complex-task
/// keyword; L1 otherwise.
pub open spec fn classify(prompt: Seq<char>) -> TaskLevel {
    if vstd::utf8::encode_utf8(prompt).len() >= 500 {
        TaskLevel::L2
    } else if exists|k: int| 0 <= k < complex_keywords().len() && contains_seq(prompt, #[trigger] complex_keywords()[k]) {
        TaskLevel::L2
    } else {
        TaskLevel::L1
    }
}

/// The user texts of `messages` that are not empty.
pub open spec fn user_texts(messages: Seq<Message>) -> Seq<Seq<char>>
    decreases messages.len(),
{
    if messages.len() == 0 {
        Seq::empty()
    } else {
        let rest = user_texts(messages.drop_last());
        match messages.last() {
            Message::User { content } => if content@.len() > 0 { rest.push(content@) } else { rest },
            _ => rest,
        }
    }
}

/// The prompt of a conversation: its non-empty user texts, one per line.
pub open spec fn prompt_of(messages: Seq<Message>) -> Seq<char> {
    join_seq(user_texts(messages), "\n"@)
}

/// The index of the first provider with a model for `level`, and that model.
pub open spec fn resolve_spec(models: Seq<ProviderModels>, level: TaskLevel) -> Option<(int, Seq<char>)>
    decreases models.len(),
{
    if models.len() == 0 {
        None
    } else {
        match resolve_spec(models.drop_last(), level) {
            Some(r) => Some(r),
            None => match model_for(models.last(), level) {
                Some(m) => Some((models.len() - 1, m)),
                None => None,
            },
        }
    }
}

/// Some model of `m` starts with `model`.
pub open spec fn serves_model(m: ProviderModels, model: Seq<char>) -> bool {
    ||| (m.model_flash is Some && starts_with_seq(m.model_flash->0@, model))
    ||| (m.model_pro is Some && starts_with_seq(m.model_pro->0@, model))
    ||| (m.default_model is Some && starts_with_seq(m.default_model->0@, model))
}

/// The first provider from index `i` on that serves `model`.
pub open spec fn first_serving(models: Seq<ProviderModels>, model: Seq<char>, i: int) -> Option<int>
    decreases models.len() - i,
{
    if i < 0 || i >= models.len() {
        None
    } else if serves_model(models[i], model) {
        Some(i)
    } else {
        first_serving(models, model, i + 1)
    }
}

/// The provider a request naming `model` goes to: the first that serves it, else the
/// first provider, if there is one.
pub open spec fn provider_for_model(models: Seq<ProviderModels>, model: Seq<char>) -> Option<int> {
    match first_serving(models, model, 0) {
        Some(i) => Some(i),
        None => if models.len() > 0 {
            Some(0)
        } else {
            None
        },
    }
}

/// Where a request goes: a provider index, and the model when routing chose it.
#[derive(PartialEq, Eq, Structural, Clone, Copy, Debug)]
pub enum RouteTarget {
    /// The provider that serves the model the request names.
    ByModel(usize),
    /// The provider chosen for the task level.
    ByLevel(usize),
}

/// Routes requests to the registered providers. Providers are known by their index in
/// registration order; the callers keep the provider objects in the same order.
pub struct ModelRouter {
    providers: Vec<(String, ProviderModels)>,
}

impl ModelRouter {
    /// The registered provider ids.
    pub closed spec fn ids(&self) -> Seq<Seq<char>> {
        self.providers@.map_values(|p: (String, ProviderModels)| p.0@)
    }

    /// The registered providers' models.
    pub closed spec fn models(&self) -> Seq<ProviderModels> {
        self.providers@.map_values(|p: (String, ProviderModels)| p.1)
    }

    /// A router with no provider.
    pub fn new(_config: ModelRouterConfig) -> (r: ModelRouter)
        ensures
            r.ids().len() == 0,
            r.models().len() == 0,
    {
        ModelRouter { providers: Vec::new() }
    }

    /// Whether no provider is registered.
    pub fn is_empty(&self) -> (b: bool)
        ensures
            b == (self.models().len() == 0),
    {
        self.providers.len() == 0
    }

    /// Registers a provider at the next index.
    pub fn register_provider(&mut self, id: String, models: ProviderModels)
        ensures
            final(self).ids() == old(self).ids().push(id@),
            final(self).models() == old(self).models().push(models),
    {
        let ghost mm = models;
        let ghost ii = id@;
        self.providers.push((id, models));
        assert(self.ids() =~= old(self).ids().push(ii));
        assert(self.models() =~= old(self).models().push(mm));
    }

    /// L2 for long prompts and prompts with a complex-task keyword, L1 otherwise.
    pub fn classify_task(&self, prompt: &str) -> (l: TaskLevel)
        ensures
            l == classify(prompt@),
    {
        proof {
            assert(prompt.spec_bytes() == vstd::utf8::encode_utf8(prompt@));
        }
        if prompt.as_bytes().len() >= 500 {
            return TaskLevel::L2;
        }
        let keywords: Vec<&str> = vec!["分析", "analyze", "日志", "log", "debug", "故障", "root cause"];
        assert(keywords@.map_values(|k: &str| k@) =~= complex_keywords());
        let mut k: usize = 0;
        while k < keywords.len()
            invariant
                k <= keywords.len(),
                keywords@.map_values(|k: &str| k@) == complex_keywords(),
                forall|j: int| 0 <= j < k ==> !contains_seq(prompt@, #[trigger] complex_keywords()[j]),
            decreases keywords.len() - k,
        {
            assert(complex_keywords()[k as int] == keywords@[k as int]@);
            if str_contains(prompt, keywords[k]) {
                return TaskLevel::L2;
            }
            k = k + 1;
        }
        TaskLevel::L1
    }

    /// The first provider with a model for `level`, with that model.
    pub fn resolve(&self, level: TaskLevel) -> (r: Result<(usize, String), LlmError>)
        ensures
            match r {
                Ok((i, m)) => resolve_spec(self.models(), level) == Some((i as int, m@)),
                Err(e) => resolve_spec(self.models(), level) is None && (e matches LlmError::InvalidRequest { message }
                    && message@ == "no provider has a model for "@ + level_text(level)),
            },
    {
        let mut i: usize = 0;
        while i < self.providers.len()
            invariant
                i <= self.providers.len(),
                resolve_spec(self.models().subrange(0, i as int), level) is None,
            decreases self.providers.len() - i,
        {
            proof {
                assert(self.models().subrange(0, i + 1).drop_last() =~= self.models().subrange(0, i as int));
                assert(self.models()[i as int] == self.providers@[i as int].1);
            }
            match self.providers[i].1.select(level) {
                Ok(model) => {
                    proof {
                        lemma_resolve_prefix(self.models(), i + 1, level);
                    }
                    return Ok((i, model));
                },
                Err(_) => {},
            }
            i = i + 1;
        }
        assert(self.models().subrange(0, i as int) =~= self.models());
        Err(LlmError::InvalidRequest { message: concat2("no provider has a model for ", level_name(level)) })
    }

    /// The prompt of a conversation: its non-empty user texts, one per line.
    pub fn extract_prompt(messages: &[Message]) -> (s: String)
        ensures
            s@ == prompt_of(messages@),
    {
        let mut texts: Vec<String> = Vec::new();
        let mut i: usize = 0;
        while i < messages.len()
            invariant
                i <= messages.len(),
                names_view(texts@) == user_texts(messages@.subrange(0, i as int)),
            decreases messages.len() - i,
        {
            proof {
                assert(messages@.subrange(0, i + 1).drop_last() =~= messages@.subrange(0, i as int));
            }
            match &messages[i] {
                Message::User { content } => {
                    if !content.as_str().is_empty() {
                        let c = owned(content.as_str());
                        proof { lemma_names_push(texts@, c); }
                        texts.push(c);
                    }
                },
                _ => {},
            }
            i = i + 1;
        }
        assert(messages@.subrange(0, messages.len() as int) =~= messages@);
        join_strings(&texts, "\n")
    }

    /// The provider serving `model`: the first whose flash, pro or default model starts
    /// with it, else the first provider, if any.
    pub fn find_provider_by_model(&self, model: &str) -> (r: Option<usize>)
        ensures
            match r {
                Some(i) => provider_for_model(self.models(), model@) == Some(i as int),
                None => provider_for_model(self.models(), model@) is None,
            },
            r is Some ==> r->0 < self.models().len(),
    {
        let mut i: usize = 0;
        while i < self.providers.len()
            invariant
                i <= self.providers.len(),
                self.providers@.len() == self.models().len(),
                first_serving(self.models(), model@, 0) == first_serving(self.models(), model@, i as int),
            decreases self.providers.len() - i,
        {
            let m = &self.providers[i].1;
            assert(self.models()[i as int] == *m);
            let matched = (match &m.model_flash {
                Some(x) => str_starts_with(x.as_str(), model),
                None => false,
            }) || (match &m.model_pro {
                Some(x) => str_starts_with(x.as_str(), model),
                None => false,
            }) || (match &m.default_model {
                Some(x) => str_starts_with(x.as_str(), model),
                None => false,
            });
            if matched {
                return Some(i);
            }
            i = i + 1;
        }
        if self.providers.len() > 0 {
            Some(0)
        } else {
            None
        }
    }

    /// Where a request goes: to the provider serving its model when it names one (and a
    /// provider exists), else to the first provider with a model for the level of its
    /// prompt, with that model.
    pub fn dispatch(&self, request_model: &str, messages: &[Message]) -> (r: Result<(RouteTarget, Option<String>), LlmError>)
        ensures
            request_model@.len() > 0 && self.models().len() > 0 ==> (r matches Ok((RouteTarget::ByModel(i), None))
                && provider_for_model(self.models(), request_model@) == Some(i as int)),
            (request_model@.len() == 0 || self.models().len() == 0) ==> match r {
                Ok((t, m)) => t matches RouteTarget::ByLevel(i) && m is Some && resolve_spec(
                    self.models(),
                    classify(prompt_of(messages@)),
                ) == Some((i as int, m->0@)),
                Err(e) => resolve_spec(self.models(), classify(prompt_of(messages@))) is None && (e matches LlmError::InvalidRequest { message }
                    && message@ == "no provider has a model for "@ + level_text(classify(prompt_of(messages@)))),
            },
    {
        if !request_model.is_empty() {
            match self.find_provider_by_model(request_model) {
                Some(i) => {
                    return Ok((RouteTarget::ByModel(i), None));
                },
                None => {},
            }
        }
        let prompt = Self::extract_prompt(messages);
        let level = self.classify_task(prompt.as_str());
        match self.resolve(level) {
            Ok((i, model)) => Ok((RouteTarget::ByLevel(i), Some(model))),
            Err(e) => Err(e),
        }
    }
}

/// A found provider stays found when more are registered.
proof fn lemma_resolve_prefix(models: Seq<ProviderModels>, k: int, level: TaskLevel)
    requires
        0 <= k <= models.len(),
        resolve_spec(models.subrange(0, k), level) is Some,
    ensures
        resolve_spec(models, level) == resolve_spec(models.subrange(0, k), level),
    decreases models.len(),
{
    if k < models.len() {
        assert(models.drop_last().subrange(0, k) =~= models.subrange(0, k));
        lemma_resolve_prefix(models.drop_last(), k, level);
    } else {
        assert(models.subrange(0, k) =~= models);
    }
}

proof fn lemma_first_serving(models: Seq<ProviderModels>, model: Seq<char>, k: int, i: int)
    requires
        0 <= k <= models.len(),
    ensures
        first_serving(models, model, k) == Some(i) <==> (k <= i < models.len() && serves_model(models[i], model)
            && forall|j: int| k <= j < i ==> !serves_model(#[trigger] models[j], model)),
        first_serving(models, model, k) is None <==> forall|j: int| k <= j < models.len() ==> !serves_model(#[trigger] models[j], model),
    decreases models.len() - k,
{
    if k < models.len() {
        lemma_first_serving(models, model, k + 1, i);
    }
}

/// A request naming a model goes to the first provider whose flash, pro or default model
/// starts with that name; the first provider takes it only when no provider has such a
/// model; with no provider it goes nowhere.
pub proof fn lemma_model_routing(models: Seq<ProviderModels>, model: Seq<char>, i: int)
    ensures
        ({
            let offers = |m: ProviderModels|
                (m.model_flash is Some && starts_with_seq(m.model_flash->0@, model))
                || (m.model_pro is Some && starts_with_seq(m.model_pro->0@, model))
                || (m.default_model is Some && starts_with_seq(m.default_model->0@, model));
            &&& (0 <= i < models.len() && offers(models[i]) && forall|j: int| 0 <= j < i ==> !offers(#[trigger] models[j]))
                ==> provider_for_model(models, model) == Some(i)
            &&& (models.len() > 0 && forall|j: int| 0 <= j < models.len() ==> !offers(#[trigger] models[j]))
                ==> provider_for_model(models, model) == Some(0int)
            &&& provider_for_model(models, model) == Some(i) && offers(models[i]) ==> forall|j: int|
                0 <= j < i ==> !offers(#[trigger] models[j])
            &&& provider_for_model(models, model) == Some(i) && !offers(models[i]) ==> i == 0 && forall|j: int|
                0 <= j < models.len() ==> !offers(#[trigger] models[j])
            &&& models.len() == 0 ==> provider_for_model(models, model) is None
        }),
{
    lemma_first_serving(models, model, 0, i);
}

/// A provider's model for a level: its flash model for L1 and its pro model for L2, and
/// its default model when that one is not set.
pub proof fn lemma_model_for_level(m: ProviderModels, level: TaskLevel)
    ensures
        level == TaskLevel::L1 && m.model_flash is Some ==> model_for(m, level) == Some(m.model_flash->0@),
        level == TaskLevel::L2 && m.model_pro is Some ==> model_for(m, level) == Some(m.model_pro->0@),
        level == TaskLevel::L1 && m.model_flash is None ==> model_for(m, level) == opt_view(m.default_model),
        level == TaskLevel::L2 && m.model_pro is None ==> model_for(m, level) == opt_view(m.default_model),
        m.default_model is None && m.model_flash is None ==> (model_for(m, TaskLevel::L1) is None),
        m.default_model is Some ==> model_for(m, level) is Some,
{
}

/// A task goes to the first provider that has a model for its level (by
/// `lemma_model_for_level`), with that model; no provider is found only when none has one.
pub proof fn lemma_resolve_first(models: Seq<ProviderModels>, level: TaskLevel, i: int, x: Seq<char>)
    ensures
        resolve_spec(models, level) == Some((i, x)) <==> (0 <= i < models.len() && model_for(models[i], level) == Some(x)
            && forall|j: int| 0 <= j < i ==> #[trigger] model_for(models[j], level) is None),
        resolve_spec(models, level) is None <==> forall|j: int| 0 <= j < models.len() ==> #[trigger] model_for(models[j], level) is None,
    decreases models.len(),
{
    if models.len() > 0 {
        let init = models.drop_last();
        lemma_resolve_first(init, level, i, x);
        assert forall|j: int| 0 <= j < init.len() implies init[j] == models[j] by {}
        if resolve_spec(init, level) is Some {
            let (i0, x0) = resolve_spec(init, level)->0;
            lemma_resolve_first(init, level, i0, x0);
        }
    }
}

/// A prompt is complex (L2) when it holds at least 500 bytes of UTF-8 or any of the words
/// 分析, analyze, 日志, log, debug, 故障, root cause; a shorter prompt with none of them is
/// simple (L1).
pub proof fn lemma_classify_words(prompt: Seq<char>)
    ensures
        vstd::utf8::encode_utf8(prompt).len() >= 500 ==> classify(prompt) == TaskLevel::L2,
        contains_seq(prompt, "分析"@) || contains_seq(prompt, "analyze"@) || contains_seq(prompt, "日志"@)
            || contains_seq(prompt, "log"@) || contains_seq(prompt, "debug"@) || contains_seq(prompt, "故障"@)
            || contains_seq(prompt, "root cause"@) ==> classify(prompt) == TaskLevel::L2,
        vstd::utf8::encode_utf8(prompt).len() < 500 && !contains_seq(prompt, "分析"@) && !contains_seq(prompt, "analyze"@)
            && !contains_seq(prompt, "日志"@) && !contains_seq(prompt, "log"@) && !contains_seq(prompt, "debug"@)
            && !contains_seq(prompt, "故障"@) && !contains_seq(prompt, "root cause"@) ==> classify(prompt) == TaskLevel::L1,
{
    let kw = complex_keywords();
    assert(kw[0] == "分析"@);
    assert(kw[1] == "analyze"@);
    assert(kw[2] == "日志"@);
    assert(kw[3] == "log"@);
    assert(kw[4] == "debug"@);
    assert(kw[5] == "故障"@);
    assert(kw[6] == "root cause"@);
    assert(kw.len() == 7);
}

} // verus!
