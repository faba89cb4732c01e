use vstd::prelude::*;

verus! {

/// The settings of one OpenAI-shaped model, as a configuration file names
/// them.
#[derive(Clone, Debug)]
pub struct OpenAIConfig {
    pub model: String,
    pub base_url: String,
    pub api_key: String,
}

/// The settings of one model, tagged by provider.
#[derive(Clone, Debug)]
pub enum ModelConfig {
    OpenAI(OpenAIConfig),
}

} // verus!
