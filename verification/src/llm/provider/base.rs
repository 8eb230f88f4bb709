//! Settings shared by every provider, and their display with the key masked.
use vstd::prelude::*;
use crate::text::{concat2, debug_str, debug_str_text, decimal_seq, decimal_string};

verus! {

/// Settings shared by the providers: API key, base URL, default model and time limit.
#[derive(Clone)]
pub struct BaseConfig {
    pub api_key: String,
    pub base_url: String,
    pub default_model: String,
    pub timeout_secs: u64,
}

/// The `Debug` text of the settings, the key shown as `"****"`.
pub open spec fn base_config_debug(base_url: Seq<char>, default_model: Seq<char>, timeout_secs: u64) -> Seq<
    char,
> {
    "BaseConfig { api_key: \"****\", base_url: "@ + debug_str_text(base_url) + ", default_model: "@
        + debug_str_text(default_model) + ", timeout_secs: "@ + decimal_seq(timeout_secs as nat) + " }"@
}

impl BaseConfig {
    /// The `Debug` text of the settings; the API key never appears in it.
    pub fn debug_text(&self) -> (s: String)
        ensures
            s@ == base_config_debug(self.base_url@, self.default_model@, self.timeout_secs),
    {
        let mut s = concat2("BaseConfig { api_key: \"****\", base_url: ", debug_str(self.base_url.as_str()).as_str());
        s.append(", default_model: ");
        s.append(debug_str(self.default_model.as_str()).as_str());
        s.append(", timeout_secs: ");
        s.append(decimal_string(self.timeout_secs).as_str());
        s.append(" }");
        s
    }
}

} // verus!
