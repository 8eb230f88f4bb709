//! Configuration of the OpenAI and Anthropic providers, read from the environment, with
//! masked keys for display and the provider settings derived from it.
use vstd::prelude::*;
use vstd::string::StringSliceAdditionalSpecFns;
use vstd::utf8::{decode_utf8, encode_utf8, is_char_boundary};
use super::router::{copy_opt, opt_view, ModelRouterConfig, TaskLevel};
use crate::text::{concat2, owned};

verus! {

/// The masked form of an API key: `****` for keys of at most eight bytes, else the first
/// four bytes, `****` and the last four bytes.
pub open spec fn masked_key(key: Seq<char>) -> Seq<char> {
    let b = encode_utf8(key);
    if b.len() <= 8 {
        "****"@
    } else {
        decode_utf8(b.subrange(0, 4)) + "****"@ + decode_utf8(b.subrange(b.len() - 4, b.len() as int))
    }
}

/// The byte positions that masking cuts at are character boundaries.
pub open spec fn maskable(key: Seq<char>) -> bool {
    let b = encode_utf8(key);
    b.len() > 8 ==> is_char_boundary(b, 4) && is_char_boundary(b, b.len() - 4)
}

/// Masks an API key for display.
pub fn mask_api_key(key: &str) -> (r: String)
    requires
        maskable(key@),
    ensures
        r@ == masked_key(key@),
{
    let n = key.as_bytes().len();
    proof {
        assert(key.spec_bytes() == encode_utf8(key@));
    }
    if n <= 8 {
        owned("****")
    } else {
        let (head, _) = key.split_at(4);
        let (_, tail) = key.split_at(n - 4);
        proof {
            vstd::utf8::encode_utf8_decode_utf8(head@);
            vstd::utf8::encode_utf8_decode_utf8(tail@);
        }
        let mut r = concat2(head, "****");
        r.append(tail);
        r
    }
}

/// An optional key masked.
pub open spec fn masked_opt(o: Option<String>) -> Option<Seq<char>> {
    match o {
        Some(k) => Some(masked_key(k@)),
        None => None,
    }
}

/// Settings `v` with every field set in `update` taken from it.
pub open spec fn merge_view(v: ProviderView, update: ProviderView) -> ProviderView {
    (
        if update.0 is Some { update.0 } else { v.0 },
        if update.1 is Some { update.1 } else { v.1 },
        if update.2 is Some { update.2 } else { v.2 },
        if update.3 is Some { update.3 } else { v.3 },
    )
}

/// Settings of one provider.
#[derive(Debug)]
pub struct ProviderConfig {
    pub api_key: Option<String>,
    pub base_url: Option<String>,
    pub model_flash: Option<String>,
    pub model_pro: Option<String>,
}

/// The settings as characters: key, base URL, flash model, pro model.
pub type ProviderView = (Option<Seq<char>>, Option<Seq<char>>, Option<Seq<char>>, Option<Seq<char>>);

impl ProviderConfig {
    /// The settings as characters.
    pub open spec fn view_of(&self) -> ProviderView {
        (opt_view(self.api_key), opt_view(self.base_url), opt_view(self.model_flash), opt_view(self.model_pro))
    }

    /// Every key that is set can be masked.
    pub open spec fn maskable_keys(&self) -> bool {
        self.api_key matches Some(k) ==> maskable(k@)
    }

    /// A copy of the settings.
    pub fn copy(&self) -> (c: ProviderConfig)
        ensures
            c.view_of() == self.view_of(),
    {
        ProviderConfig {
            api_key: copy_opt(&self.api_key),
            base_url: copy_opt(&self.base_url),
            model_flash: copy_opt(&self.model_flash),
            model_pro: copy_opt(&self.model_pro),
        }
    }

    /// The settings with the key masked.
    pub fn masked(&self) -> (c: ProviderConfig)
        requires
            self.maskable_keys(),
        ensures
            c.view_of() == (masked_opt(self.api_key), self.view_of().1, self.view_of().2, self.view_of().3),
    {
        ProviderConfig {
            api_key: match &self.api_key {
                Some(k) => Some(mask_api_key(k.as_str())),
                None => None,
            },
            base_url: copy_opt(&self.base_url),
            model_flash: copy_opt(&self.model_flash),
            model_pro: copy_opt(&self.model_pro),
        }
    }

    /// Takes every field that `update` sets.
    pub fn merge(&mut self, update: &ProviderConfig)
        ensures
            final(self).view_of() == merge_view(old(self).view_of(), update.view_of()),
    {
        if let Some(k) = &update.api_key {
            self.api_key = Some(owned(k.as_str()));
        }
        if let Some(u) = &update.base_url {
            self.base_url = Some(owned(u.as_str()));
        }
        if let Some(m) = &update.model_flash {
            self.model_flash = Some(owned(m.as_str()));
        }
        if let Some(m) = &update.model_pro {
            self.model_pro = Some(owned(m.as_str()));
        }
    }
}

impl Default for ProviderConfig {
    fn default() -> (c: ProviderConfig)
        ensures
            c.view_of() == (None::<Seq<char>>, None::<Seq<char>>, None::<Seq<char>>, None::<Seq<char>>),
    {
        ProviderConfig { api_key: None, base_url: None, model_flash: None, model_pro: None }
    }
}

/// The configuration of both providers.
#[derive(Debug)]
pub struct LlmConfigSnapshot {
    pub openai: ProviderConfig,
    pub anthropic: ProviderConfig,
}

impl LlmConfigSnapshot {
    /// Both providers' settings as characters.
    pub open spec fn view_of(&self) -> (ProviderView, ProviderView) {
        (self.openai.view_of(), self.anthropic.view_of())
    }

    /// A copy of the configuration.
    pub fn copy(&self) -> (c: LlmConfigSnapshot)
        ensures
            c.view_of() == self.view_of(),
    {
        LlmConfigSnapshot { openai: self.openai.copy(), anthropic: self.anthropic.copy() }
    }

    /// The configuration with both API keys masked.
    pub fn with_masked_keys(&self) -> (c: LlmConfigSnapshot)
        requires
            self.openai.maskable_keys(),
            self.anthropic.maskable_keys(),
        ensures
            c.openai.view_of() == (masked_opt(self.openai.api_key), self.openai.view_of().1, self.openai.view_of().2, self.openai.view_of().3),
            c.anthropic.view_of() == (masked_opt(self.anthropic.api_key), self.anthropic.view_of().1, self.anthropic.view_of().2, self.anthropic.view_of().3),
    {
        LlmConfigSnapshot { openai: self.openai.masked(), anthropic: self.anthropic.masked() }
    }
}

impl Default for LlmConfigSnapshot {
    fn default() -> (c: LlmConfigSnapshot)
        ensures
            c.openai.view_of() == (None::<Seq<char>>, None::<Seq<char>>, None::<Seq<char>>, None::<Seq<char>>),
            c.anthropic.view_of() == (None::<Seq<char>>, None::<Seq<char>>, None::<Seq<char>>, None::<Seq<char>>),
    {
        LlmConfigSnapshot { openai: ProviderConfig::default(), anthropic: ProviderConfig::default() }
    }
}

/// An update of the configuration: the settings given for a provider replace the fields
/// they set.
#[derive(Debug)]
pub struct LlmConfigUpdate {
    pub openai: Option<ProviderConfig>,
    pub anthropic: Option<ProviderConfig>,
}

/// Settings with which an OpenAI provider is created.
#[derive(Debug, Clone)]
pub struct OpenAIConfig {
    pub api_key: String,
    pub base_url: String,
    pub default_model: String,
    pub timeout_secs: u64,
}

impl Default for OpenAIConfig {
    fn default() -> (c: OpenAIConfig)
        ensures
            c.api_key@.len() == 0,
            c.base_url@ == "https://api.openai.com"@,
            c.default_model@ == "gpt-4o"@,
            c.timeout_secs == 60,
    {
        OpenAIConfig { api_key: String::new(), base_url: owned("https://api.openai.com"), default_model: owned("gpt-4o"), timeout_secs: 60 }
    }
}

/// Settings with which an Anthropic provider is created.
#[derive(Debug, Clone)]
pub struct AnthropicConfig {
    pub api_key: String,
    pub base_url: String,
    pub default_model: String,
    pub timeout_secs: u64,
}

/// An optional value, or the given default.
pub open spec fn or_default(o: Option<Seq<char>>, d: Seq<char>) -> Seq<char> {
    match o {
        Some(x) => x,
        None => d,
    }
}

/// The key of a provider when it is set and not empty.
pub open spec fn usable_key(p: ProviderView) -> bool {
    p.0 matches Some(k) && k.len() > 0
}

/// The settings for a provider creation: key, base URL (or the default), flash model (or
/// the default model), 60 s.
pub open spec fn creation_settings(p: ProviderView, default_url: Seq<char>, default_model: Seq<char>) -> (Seq<char>, Seq<char>, Seq<char>, u64) {
    (p.0->0, or_default(p.1, default_url), or_default(p.2, default_model), 60u64)
}

/// A copy of an optional string, or `default`.
fn or_default_exec(o: &Option<String>, default: &str) -> (r: String)
    ensures
        r@ == or_default(opt_view(*o), default@),
{
    match o {
        Some(x) => owned(x.as_str()),
        None => owned(default),
    }
}

/// Runtime-updatable LLM configuration.
pub struct LlmConfigStore {
    inner: LlmConfigSnapshot,
    router_config: ModelRouterConfig,
}

impl LlmConfigStore {
    /// The current configuration.
    pub closed spec fn config(&self) -> (ProviderView, ProviderView) {
        self.inner.view_of()
    }

    /// The routing settings a router is built with.
    pub closed spec fn routing(&self) -> ModelRouterConfig {
        self.router_config
    }

    /// An empty configuration with the given routing settings.
    pub fn new(router_config: ModelRouterConfig) -> (s: LlmConfigStore)
        ensures
            s.routing() == router_config,
            s.config() == ((None::<Seq<char>>, None::<Seq<char>>, None::<Seq<char>>, None::<Seq<char>>), (None::<Seq<char>>, None::<Seq<char>>, None::<Seq<char>>, None::<Seq<char>>)),
    {
        LlmConfigStore { inner: LlmConfigSnapshot::default(), router_config }
    }

    /// The configuration from the environment values: a provider is set only when its key
    /// is given and not empty, and then takes the other values as given.
    pub fn from_env(
        openai_api_key: Option<&str>,
        openai_base_url: Option<&str>,
        openai_model_flash: Option<&str>,
        openai_model_pro: Option<&str>,
        anthropic_api_key: Option<&str>,
        anthropic_base_url: Option<&str>,
        anthropic_model_flash: Option<&str>,
        anthropic_model_pro: Option<&str>,
    ) -> (s: LlmConfigStore)
        ensures
            s.config().0 == env_provider(openai_api_key, openai_base_url, openai_model_flash, openai_model_pro),
            s.config().1 == env_provider(anthropic_api_key, anthropic_base_url, anthropic_model_flash, anthropic_model_pro),
            s.routing().default_level == TaskLevel::L1,
            s.routing().max_tokens_l1 == 1024,
            s.routing().max_tokens_l2 == 4096,
    {
        let openai = provider_from_env(openai_api_key, openai_base_url, openai_model_flash, openai_model_pro);
        let anthropic = provider_from_env(anthropic_api_key, anthropic_base_url, anthropic_model_flash, anthropic_model_pro);
        LlmConfigStore { inner: LlmConfigSnapshot { openai, anthropic }, router_config: ModelRouterConfig::default() }
    }

    /// A copy of the current configuration.
    pub fn snapshot(&self) -> (c: LlmConfigSnapshot)
        ensures
            c.view_of() == self.config(),
    {
        self.inner.copy()
    }

    /// Merges an update: each field it sets for a provider replaces the current one.
    pub fn update(&mut self, update: LlmConfigUpdate)
        ensures
            final(self).config().0 == match update.openai {
                Some(p) => merge_view(old(self).config().0, p.view_of()),
                None => old(self).config().0,
            },
            final(self).config().1 == match update.anthropic {
                Some(p) => merge_view(old(self).config().1, p.view_of()),
                None => old(self).config().1,
            },
            final(self).routing() == old(self).routing(),
    {
        if let Some(p) = &update.openai {
            self.inner.openai.merge(p);
        }
        if let Some(p) = &update.anthropic {
            self.inner.anthropic.merge(p);
        }
    }

    /// The routing settings and the providers to create from the current configuration:
    /// OpenAI, then Anthropic,
    /// each when its key is set and not empty, with default base URL and model filled in;
    /// `anthropic_model` is the model used when no Anthropic flash model is set.
    pub fn build_router(&self, anthropic_model: &str) -> (r: (Option<OpenAIConfig>, Option<AnthropicConfig>, ModelRouterConfig))
        ensures
            r.2 == self.routing(),
            match r.0 {
                Some(c) => usable_key(self.config().0) && (c.api_key@, c.base_url@, c.default_model@, c.timeout_secs) == creation_settings(
                    self.config().0,
                    "https://api.openai.com"@,
                    "gpt-4o-mini"@,
                ),
                None => !usable_key(self.config().0),
            },
            match r.1 {
                Some(c) => usable_key(self.config().1) && (c.api_key@, c.base_url@, c.default_model@, c.timeout_secs) == creation_settings(
                    self.config().1,
                    "https://api.anthropic.com"@,
                    anthropic_model@,
                ),
                None => !usable_key(self.config().1),
            },
    {
        let openai = match &self.inner.openai.api_key {
            Some(key) => {
                if !key.as_str().is_empty() {
                    Some(OpenAIConfig {
                        api_key: owned(key.as_str()),
                        base_url: or_default_exec(&self.inner.openai.base_url, "https://api.openai.com"),
                        default_model: or_default_exec(&self.inner.openai.model_flash, "gpt-4o-mini"),
                        timeout_secs: 60,
                    })
                } else {
                    None
                }
            },
            None => None,
        };
        let anthropic = match &self.inner.anthropic.api_key {
            Some(key) => {
                if !key.as_str().is_empty() {
                    Some(AnthropicConfig {
                        api_key: owned(key.as_str()),
                        base_url: or_default_exec(&self.inner.anthropic.base_url, "https://api.anthropic.com"),
                        default_model: or_default_exec(&self.inner.anthropic.model_flash, anthropic_model),
                        timeout_secs: 60,
                    })
                } else {
                    None
                }
            },
            None => None,
        };
        (openai, anthropic, self.router_config)
    }
}

impl Default for LlmConfigStore {
    fn default() -> (s: LlmConfigStore)
        ensures
            s.config() == ((None::<Seq<char>>, None::<Seq<char>>, None::<Seq<char>>, None::<Seq<char>>), (None::<Seq<char>>, None::<Seq<char>>, None::<Seq<char>>, None::<Seq<char>>)),
            s.routing().default_level == TaskLevel::L1,
            s.routing().max_tokens_l1 == 1024,
            s.routing().max_tokens_l2 == 4096,
    {
        LlmConfigStore::new(ModelRouterConfig::default())
    }
}

/// An optional `&str` as characters.
pub open spec fn str_opt(o: Option<&str>) -> Option<Seq<char>> {
    match o {
        Some(s) => Some(s@),
        None => None,
    }
}

/// The provider settings from environment values: nothing unless the key is given and
/// not empty.
pub open spec fn env_provider(key: Option<&str>, url: Option<&str>, flash: Option<&str>, pro: Option<&str>) -> ProviderView {
    if key matches Some(k) && k@.len() > 0 {
        (str_opt(key), str_opt(url), str_opt(flash), str_opt(pro))
    } else {
        (None, None, None, None)
    }
}

fn own_opt(o: Option<&str>) -> (r: Option<String>)
    ensures
        opt_view(r) == str_opt(o),
{
    match o {
        Some(s) => Some(owned(s)),
        None => None,
    }
}

fn provider_from_env(key: Option<&str>, url: Option<&str>, flash: Option<&str>, pro: Option<&str>) -> (p: ProviderConfig)
    ensures
        p.view_of() == env_provider(key, url, flash, pro),
{
    match key {
        Some(k) => {
            if !k.is_empty() {
                ProviderConfig { api_key: own_opt(key), base_url: own_opt(url), model_flash: own_opt(flash), model_pro: own_opt(pro) }
            } else {
                ProviderConfig::default()
            }
        },
        None => ProviderConfig::default(),
    }
}

} // verus!
