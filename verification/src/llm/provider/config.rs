//! Runtime LLM configuration: a list of providers and the default one.
use vstd::prelude::*;
use crate::llm::config_store::{mask_api_key, maskable, masked_opt};
use crate::llm::router::{copy_opt, opt_view, ProviderModels};
use crate::text::{owned, str_eq};

verus! {

/// Settings of one provider.
#[derive(Debug)]
pub struct ProviderConfig {
    pub id: String,
    pub api_key: Option<String>,
    pub base_url: Option<String>,
    pub model_flash: Option<String>,
    pub model_pro: Option<String>,
}

/// A provider's settings as characters: id, key, base URL, flash model, pro model.
pub type ProviderConfigView = (Seq<char>, Option<Seq<char>>, Option<Seq<char>>, Option<Seq<char>>, Option<Seq<char>>);

/// The settings as characters.
pub open spec fn provider_view(p: ProviderConfig) -> ProviderConfigView {
    (p.id@, opt_view(p.api_key), opt_view(p.base_url), opt_view(p.model_flash), opt_view(p.model_pro))
}

/// All providers' settings as characters.
pub open spec fn providers_view(ps: Seq<ProviderConfig>) -> Seq<ProviderConfigView> {
    ps.map_values(|p: ProviderConfig| provider_view(p))
}

impl ProviderConfig {
    /// A copy of the settings.
    pub fn copy(&self) -> (c: ProviderConfig)
        ensures
            provider_view(c) == provider_view(*self),
    {
        ProviderConfig {
            id: owned(self.id.as_str()),
            api_key: copy_opt(&self.api_key),
            base_url: copy_opt(&self.base_url),
            model_flash: copy_opt(&self.model_flash),
            model_pro: copy_opt(&self.model_pro),
        }
    }
}

impl Default for ProviderConfig {
    fn default() -> (c: ProviderConfig)
        ensures
            c.id@.len() == 0,
            c.api_key is None,
            c.base_url is None,
            c.model_flash is None,
            c.model_pro is None,
    {
        ProviderConfig { id: String::new(), api_key: None, base_url: None, model_flash: None, model_pro: None }
    }
}

/// Copies of all providers' settings.
fn copy_all(ps: &Vec<ProviderConfig>) -> (r: Vec<ProviderConfig>)
    ensures
        providers_view(r@) == providers_view(ps@),
{
    let mut r: Vec<ProviderConfig> = Vec::new();
    let mut i: usize = 0;
    while i < ps.len()
        invariant
            i <= ps.len(),
            providers_view(r@) == providers_view(ps@).subrange(0, i as int),
        decreases ps.len() - i,
    {
        let c = ps[i].copy();
        let ghost before = r@;
        r.push(c);
        assert(providers_view(r@) =~= providers_view(before).push(provider_view(c)));
        i = i + 1;
        assert(providers_view(r@) =~= providers_view(ps@).subrange(0, i as int));
    }
    assert(providers_view(ps@).subrange(0, ps.len() as int) =~= providers_view(ps@));
    r
}

/// The configured providers and the default one.
#[derive(Debug)]
pub struct LlmConfigSnapshot {
    pub providers: Vec<ProviderConfig>,
    pub default_provider: String,
}

/// The first provider with the given id.
pub open spec fn find_provider(ps: Seq<ProviderConfig>, id: Seq<char>) -> Option<int>
    decreases ps.len(),
{
    if ps.len() == 0 {
        None
    } else if ps[0].id@ == id {
        Some(0)
    } else {
        match find_provider(ps.drop_first(), id) {
            Some(k) => Some(k + 1),
            None => None,
        }
    }
}

impl LlmConfigSnapshot {
    /// Every key that is set can be masked.
    pub open spec fn maskable_keys(&self) -> bool {
        forall|k: int| 0 <= k < self.providers@.len() ==> ((#[trigger] self.providers@[k]).api_key matches Some(x) ==> maskable(x@))
    }

    /// The configuration with every API key masked.
    pub fn with_masked_keys(&self) -> (c: LlmConfigSnapshot)
        requires
            self.maskable_keys(),
        ensures
            c.default_provider@ == self.default_provider@,
            c.providers@.len() == self.providers@.len(),
            forall|k: int| 0 <= k < self.providers@.len() ==> {
                let p = #[trigger] self.providers@[k];
                let q = c.providers@[k];
                provider_view(q) == (p.id@, masked_opt(p.api_key), opt_view(p.base_url), opt_view(p.model_flash), opt_view(p.model_pro))
            },
    {
        let mut out: Vec<ProviderConfig> = Vec::new();
        let mut i: usize = 0;
        while i < self.providers.len()
            invariant
                i <= self.providers.len(),
                self.maskable_keys(),
                out@.len() == i,
                forall|k: int| 0 <= k < i ==> {
                    let p = #[trigger] self.providers@[k];
                    let q = out@[k];
                    provider_view(q) == (p.id@, masked_opt(p.api_key), opt_view(p.base_url), opt_view(p.model_flash), opt_view(p.model_pro))
                },
            decreases self.providers.len() - i,
        {
            let p = &self.providers[i];
            let key = match &p.api_key {
                Some(k) => Some(mask_api_key(k.as_str())),
                None => None,
            };
            out.push(ProviderConfig {
                id: owned(p.id.as_str()),
                api_key: key,
                base_url: copy_opt(&p.base_url),
                model_flash: copy_opt(&p.model_flash),
                model_pro: copy_opt(&p.model_pro),
            });
            i = i + 1;
        }
        LlmConfigSnapshot { providers: out, default_provider: owned(self.default_provider.as_str()) }
    }

    /// The first provider with id `id`.
    pub fn get_provider(&self, id: &str) -> (r: Option<&ProviderConfig>)
        ensures
            match r {
                Some(p) => find_provider(self.providers@, id@) matches Some(k) && self.providers@[k] == *p,
                None => find_provider(self.providers@, id@) is None,
            },
    {
        let mut i: usize = 0;
        assert(self.providers@.subrange(0, self.providers@.len() as int) =~= self.providers@);
        while i < self.providers.len()
            invariant
                i <= self.providers.len(),
                find_provider(self.providers@, id@) == match find_provider(
                    self.providers@.subrange(i as int, self.providers@.len() as int),
                    id@,
                ) {
                    Some(k) => Some(k + i),
                    None => None,
                },
            decreases self.providers.len() - i,
        {
            let ghost rest = self.providers@.subrange(i as int, self.providers@.len() as int);
            assert(rest[0] == self.providers@[i as int]);
            if str_eq(self.providers[i].id.as_str(), id) {
                return Some(&self.providers[i]);
            }
            assert(rest.drop_first() =~= self.providers@.subrange(i + 1, self.providers@.len() as int));
            i = i + 1;
        }
        assert(self.providers@.subrange(i as int, self.providers@.len() as int) =~= Seq::<ProviderConfig>::empty());
        None
    }

    /// The flash model of the default provider, if it exists and has one.
    pub fn default_model_flash(&self) -> (r: Option<String>)
        ensures
            opt_view(r) == match find_provider(self.providers@, self.default_provider@) {
                Some(k) => opt_view(self.providers@[k].model_flash),
                None => None,
            },
    {
        match self.get_provider(self.default_provider.as_str()) {
            Some(p) => copy_opt(&p.model_flash),
            None => None,
        }
    }

    /// A copy of the configuration.
    pub fn copy(&self) -> (c: LlmConfigSnapshot)
        ensures
            providers_view(c.providers@) == providers_view(self.providers@),
            c.default_provider@ == self.default_provider@,
    {
        LlmConfigSnapshot { providers: copy_all(&self.providers), default_provider: owned(self.default_provider.as_str()) }
    }
}

impl Default for LlmConfigSnapshot {
    fn default() -> (c: LlmConfigSnapshot)
        ensures
            c.providers@.len() == 0,
            c.default_provider@.len() == 0,
    {
        LlmConfigSnapshot { providers: Vec::new(), default_provider: String::new() }
    }
}

/// The API family of a provider.
#[derive(PartialEq, Eq, Structural, Clone, Copy, Debug)]
pub enum ProviderKind {
    /// OpenAI and the OpenAI-compatible APIs.
    OpenAICompat,
    /// Anthropic.
    Anthropic,
}

/// The API family for a provider id: `openai`, `deepseek`, `nvidia`, `llama`, `vllm` are
/// OpenAI-compatible, `anthropic` is Anthropic, other ids are unknown.
pub open spec fn kind_of(id: Seq<char>) -> Option<ProviderKind> {
    if id == "openai"@ || id == "deepseek"@ || id == "nvidia"@ || id == "llama"@ || id == "vllm"@ {
        Some(ProviderKind::OpenAICompat)
    } else if id == "anthropic"@ {
        Some(ProviderKind::Anthropic)
    } else {
        None
    }
}

/// A provider to create and register: id, family, key, base URL and models (the flash
/// model also being the default model).
#[derive(Debug)]
pub struct ProviderPlan {
    pub id: String,
    pub kind: ProviderKind,
    pub api_key: String,
    pub base_url: String,
    pub models: ProviderModels,
}

/// The plan as characters: id, family, key, base URL, flash, pro and default model.
pub type PlanView = (Seq<char>, ProviderKind, Seq<char>, Seq<char>, Option<Seq<char>>, Option<Seq<char>>, Option<Seq<char>>);

/// The plan as characters.
pub open spec fn plan_view(p: ProviderPlan) -> PlanView {
    (p.id@, p.kind, p.api_key@, p.base_url@, opt_view(p.models.model_flash), opt_view(p.models.model_pro), opt_view(p.models.default_model))
}

/// The plan entry of a provider: only when its key is set and not empty, its base URL is
/// set and its id is known.
pub open spec fn plan_entry(p: ProviderConfigView) -> Option<PlanView> {
    match (p.1, p.2, kind_of(p.0)) {
        (Some(key), Some(url), Some(kind)) => if key.len() > 0 {
            Some((p.0, kind, key, url, p.3, p.4, p.3))
        } else {
            None
        },
        _ => None,
    }
}

/// Plan entries of the providers that are (`want`) or are not the default, in order.
pub open spec fn plan_pass(ps: Seq<ProviderConfigView>, default_id: Seq<char>, want: bool) -> Seq<PlanView>
    decreases ps.len(),
{
    if ps.len() == 0 {
        Seq::empty()
    } else {
        let rest = plan_pass(ps.drop_last(), default_id, want);
        if (ps.last().0 == default_id) == want {
            match plan_entry(ps.last()) {
                Some(e) => rest.push(e),
                None => rest,
            }
        } else {
            rest
        }
    }
}

/// The router plan: the usable providers, the default one first and the others in
/// their order.
pub open spec fn router_plan(ps: Seq<ProviderConfigView>, default_id: Seq<char>) -> Seq<PlanView> {
    plan_pass(ps, default_id, true) + plan_pass(ps, default_id, false)
}

/// The family of a provider id.
fn kind_for(id: &str) -> (k: Option<ProviderKind>)
    ensures
        k == kind_of(id@),
{
    if str_eq(id, "openai") || str_eq(id, "deepseek") || str_eq(id, "nvidia") || str_eq(id, "llama") || str_eq(id, "vllm") {
        Some(ProviderKind::OpenAICompat)
    } else if str_eq(id, "anthropic") {
        Some(ProviderKind::Anthropic)
    } else {
        None
    }
}

/// The plan entry of one provider.
fn plan_for(p: &ProviderConfig) -> (r: Option<ProviderPlan>)
    ensures
        match r {
            Some(e) => plan_entry(provider_view(*p)) == Some(plan_view(e)),
            None => plan_entry(provider_view(*p)) is None,
        },
{
    match (&p.api_key, &p.base_url, kind_for(p.id.as_str())) {
        (Some(key), Some(url), Some(kind)) => {
            if !key.as_str().is_empty() {
                Some(ProviderPlan {
                    id: owned(p.id.as_str()),
                    kind,
                    api_key: owned(key.as_str()),
                    base_url: owned(url.as_str()),
                    models: ProviderModels {
                        model_flash: copy_opt(&p.model_flash),
                        model_pro: copy_opt(&p.model_pro),
                        default_model: copy_opt(&p.model_flash),
                    },
                })
            } else {
                None
            }
        },
        _ => None,
    }
}

/// Appends the plan entries of the providers that are (`want`) or are not the default.
fn push_pass(out: &mut Vec<ProviderPlan>, providers: &[ProviderConfig], default_provider: &str, want: bool)
    ensures
        final(out)@.map_values(|e: ProviderPlan| plan_view(e)) == old(out)@.map_values(|e: ProviderPlan| plan_view(e))
            + plan_pass(providers_view(providers@), default_provider@, want),
{
    let mut i: usize = 0;
    while i < providers.len()
        invariant
            i <= providers.len(),
            out@.map_values(|e: ProviderPlan| plan_view(e)) == old(out)@.map_values(|e: ProviderPlan| plan_view(e))
                + plan_pass(providers_view(providers@).subrange(0, i as int), default_provider@, want),
        decreases providers.len() - i,
    {
        let ghost before = out@.map_values(|e: ProviderPlan| plan_view(e));
        proof {
            let s = providers_view(providers@).subrange(0, i + 1);
            assert(s.drop_last() =~= providers_view(providers@).subrange(0, i as int));
            assert(s.last() == provider_view(providers@[i as int]));
        }
        let is_default = str_eq(providers[i].id.as_str(), default_provider);
        if is_default == want {
            match plan_for(&providers[i]) {
                Some(e) => {
                    let ghost ev = plan_view(e);
                    out.push(e);
                    assert(out@.map_values(|e: ProviderPlan| plan_view(e)) =~= before.push(ev));
                },
                None => {},
            }
        }
        i = i + 1;
    }
    assert(providers_view(providers@).subrange(0, providers.len() as int) =~= providers_view(providers@));
}

/// The plan of providers to build a model router from: usable providers only (key set and
/// not empty, base URL set, known id), the default provider first. With an empty plan the
/// caller falls back to the dummy provider.
pub fn build_model_router(providers: &[ProviderConfig], default_provider: &str) -> (plan: Vec<ProviderPlan>)
    ensures
        plan@.map_values(|e: ProviderPlan| plan_view(e)) == router_plan(providers_view(providers@), default_provider@),
{
    let mut plan: Vec<ProviderPlan> = Vec::new();
    assert(plan@.map_values(|e: ProviderPlan| plan_view(e)) =~= Seq::<PlanView>::empty());
    push_pass(&mut plan, providers, default_provider, true);
    push_pass(&mut plan, providers, default_provider, false);
    proof {
        assert(Seq::<PlanView>::empty() + plan_pass(providers_view(providers@), default_provider@, true) =~= plan_pass(
            providers_view(providers@),
            default_provider@,
            true,
        ));
    }
    plan
}

/// Runtime LLM configuration.
pub struct LlmConfigStore {
    inner: LlmConfigSnapshot,
}

impl LlmConfigStore {
    /// The configured providers.
    pub closed spec fn providers(&self) -> Seq<ProviderConfigView> {
        providers_view(self.inner.providers@)
    }

    /// The default provider id.
    pub closed spec fn default_id(&self) -> Seq<char> {
        self.inner.default_provider@
    }

    /// No provider, no default.
    pub fn new() -> (s: LlmConfigStore)
        ensures
            s.providers().len() == 0,
            s.default_id().len() == 0,
    {
        LlmConfigStore { inner: LlmConfigSnapshot::default() }
    }

    /// The given providers and default.
    pub fn from_providers(providers: Vec<ProviderConfig>, default_provider: String) -> (s: LlmConfigStore)
        ensures
            s.providers() == providers_view(providers@),
            s.default_id() == default_provider@,
    {
        LlmConfigStore { inner: LlmConfigSnapshot { providers, default_provider } }
    }

    /// A copy of the configuration.
    pub fn snapshot(&self) -> (c: LlmConfigSnapshot)
        ensures
            providers_view(c.providers@) == self.providers(),
            c.default_provider@ == self.default_id(),
    {
        self.inner.copy()
    }

    /// The plan of providers for the router of the current configuration.
    pub fn build_router(&self) -> (plan: Vec<ProviderPlan>)
        ensures
            plan@.map_values(|e: ProviderPlan| plan_view(e)) == router_plan(self.providers(), self.default_id()),
    {
        build_model_router(self.inner.providers.as_slice(), self.inner.default_provider.as_str())
    }
}

impl Default for LlmConfigStore {
    fn default() -> (s: LlmConfigStore)
        ensures
            s.providers().len() == 0,
            s.default_id().len() == 0,
    {
        LlmConfigStore::new()
    }
}

/// The startup line of a provider: `id(model=M, base=B)`, `(not set)` and `(default)`
/// standing for a missing flash model and base URL.
pub open spec fn provider_line(p: ProviderConfigView) -> Seq<char> {
    p.0 + "(model="@ + match p.3 {
        Some(m) => m,
        None => "(not set)"@,
    } + ", base="@ + match p.2 {
        Some(b) => b,
        None => "(default)"@,
    } + ")"@
}

/// The startup lines of the providers that have an API key, in order.
pub open spec fn startup_lines(ps: Seq<ProviderConfigView>) -> Seq<Seq<char>>
    decreases ps.len(),
{
    if ps.len() == 0 {
        Seq::empty()
    } else if ps.last().1 is Some {
        startup_lines(ps.drop_last()).push(provider_line(ps.last()))
    } else {
        startup_lines(ps.drop_last())
    }
}

impl LlmConfigSnapshot {
    /// The startup lines of the providers that have an API key.
    pub fn startup_providers(&self) -> (v: Vec<String>)
        ensures
            crate::text::names_view(v@) == startup_lines(providers_view(self.providers@)),
    {
        let mut v: Vec<String> = Vec::new();
        let mut i: usize = 0;
        while i < self.providers.len()
            invariant
                i <= self.providers.len(),
                crate::text::names_view(v@) == startup_lines(providers_view(self.providers@).subrange(0, i as int)),
            decreases self.providers.len() - i,
        {
            proof {
                let t = providers_view(self.providers@).subrange(0, i + 1);
                assert(t.drop_last() =~= providers_view(self.providers@).subrange(0, i as int));
                assert(t.last() == provider_view(self.providers@[i as int]));
            }
            let p = &self.providers[i];
            if p.api_key.is_some() {
                let mut line = crate::text::concat2(p.id.as_str(), "(model=");
                match &p.model_flash {
                    Some(m) => line.append(m.as_str()),
                    None => line.append("(not set)"),
                }
                line.append(", base=");
                match &p.base_url {
                    Some(b) => line.append(b.as_str()),
                    None => line.append("(default)"),
                }
                line.append(")");
                proof { crate::text::lemma_names_push(v@, line); }
                v.push(line);
            }
            i = i + 1;
        }
        assert(providers_view(self.providers@).subrange(0, self.providers@.len() as int) =~= providers_view(self.providers@));
        v
    }
}

} // verus!
