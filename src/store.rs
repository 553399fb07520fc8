//! Session settings and credentials that the submission reads.

use vstd::prelude::*;
use crate::model::ConfigInterface;
use crate::usage::UsageTable;

verus! {

/// The system message a new chat starts with.
pub const DEFAULT_SYSTEM_MESSAGE: &'static str = "You are ChatGPT, a large language model trained by OpenAI.
Carefully heed the user's instructions. 
Respond using Markdown.";

/// Where requests go, and with which key.
#[derive(Debug)]
pub struct AuthSlice {
    pub api_key: Option<String>,
    pub api_endpoint: Option<String>,
    pub first_version: bool,
}

impl AuthSlice {
    /// Credentials with the given key and endpoint.
    pub fn new(api_key: Option<String>, api_endpoint: Option<String>, first_version: bool) -> (r: AuthSlice)
        ensures
            r.api_key == api_key,
            r.api_endpoint == api_endpoint,
            r.first_version == first_version,
    {
        AuthSlice { api_key, api_endpoint, first_version }
    }
}

/// Settings that shape a submission, and the tokens spent so far.
pub struct ConfigSlice {
    /// Give an untitled chat a title after its first exchange.
    pub auto_title: bool,
    /// Account the tokens of each completed exchange.
    pub count_total_tokens: bool,
    pub default_chat_config: ConfigInterface,
    pub default_system_message: String,
    pub total_token_used: UsageTable,
}

impl Default for ConfigSlice {
    fn default() -> (r: ConfigSlice)
        ensures
            !r.auto_title,
            !r.count_total_tokens,
            r.default_chat_config == ConfigInterface::spec_default(),
            r.default_system_message@ == DEFAULT_SYSTEM_MESSAGE@,
            r.total_token_used.wf(),
            r.total_token_used@ == Map::<crate::model::ModelOptions, crate::model::TokenUsage>::empty(),
    {
        ConfigSlice {
            auto_title: false,
            count_total_tokens: false,
            default_chat_config: ConfigInterface::default(),
            default_system_message: DEFAULT_SYSTEM_MESSAGE.to_owned(),
            total_token_used: UsageTable::new(),
        }
    }
}

} // verus!
