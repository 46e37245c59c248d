//! Settings of the language-model providers the runtime can talk to.
use vstd::prelude::*;

verus! {

/// Author of a chat message.
#[derive(Debug, Clone, Copy, PartialEq, Eq, Structural)]
pub enum MessageRole {
    System,
    User,
    Assistant,
}

/// Token accounting of one model reply.
#[derive(Debug, Clone, Copy, PartialEq, Eq, Structural)]
pub struct Usage {
    pub prompt_tokens: u32,
    pub completion_tokens: u32,
    pub total_tokens: u32,
}

/// A model reply.
#[derive(Debug, Clone)]
pub struct LLMResponse {
    pub content: String,
    pub usage: Option<Usage>,
    pub model: String,
}

#[derive(Debug, Clone)]
pub struct OpenAIConfig {
    pub api_key: String,
    pub base_url: Option<String>,
    pub model: String,
}

#[derive(Debug, Clone)]
pub struct ClaudeConfig {
    pub api_key: String,
    pub model: String,
    pub base_url: Option<String>,
}

#[derive(Debug, Clone)]
pub struct GoogleConfig {
    pub api_key: String,
    pub model: String,
    pub base_url: Option<String>,
}

/// Which providers are configured.
#[derive(Debug, Clone)]
pub struct ProviderConfig {
    pub openai: Option<OpenAIConfig>,
    pub claude: Option<ClaudeConfig>,
    pub google: Option<GoogleConfig>,
}

pub open spec fn opt_or(o: Option<String>, default: Seq<char>) -> Seq<char> {
    match o {
        Some(s) => s@,
        None => default,
    }
}

/// Connection settings for Google's Gemini models.
#[derive(Debug, Clone)]
pub struct GoogleProvider {
    pub api_key: String,
    pub model: String,
    pub base_url: String,
}

impl GoogleProvider {
    pub fn new(api_key: String, model: Option<String>) -> (r: Self)
        ensures
            r.api_key == api_key,
            r.model@ == opt_or(model, "gemini-pro"@),
            r.base_url@ == "https://generativelanguage.googleapis.com/v1beta"@,
    {
        let model = match model {
            Some(m) => m,
            None => String::from_str("gemini-pro"),
        };
        GoogleProvider {
            api_key,
            model,
            base_url: String::from_str("https://generativelanguage.googleapis.com/v1beta"),
        }
    }

    pub fn provider_name(&self) -> (r: &'static str)
        ensures
            r@ == "google"@,
    {
        "google"
    }

    /// The role name Gemini's API uses.
    pub fn convert_message_role(role: MessageRole) -> (r: String)
        ensures
            role == MessageRole::System ==> r@ == "system"@,
            role == MessageRole::User ==> r@ == "user"@,
            role == MessageRole::Assistant ==> r@ == "model"@,
    {
        match role {
            MessageRole::System => String::from_str("system"),
            MessageRole::User => String::from_str("user"),
            MessageRole::Assistant => String::from_str("model"),
        }
    }
}

} // verus!
