//! Which models the configuration asks for, and how they are reached.

use vstd::prelude::*;
use vstd::string::StringExecFns;

use crate::config::ExtractorConfig;
use crate::config::ExtractorProvider;
use crate::config::ModelConfig;
use crate::config::ModelProvider;

verus! {

/// Where an Ollama service is looked for when the configuration names no
/// place.
pub open spec fn default_ollama_host() -> Seq<char> {
    "http://localhost:11434"@
}

/// The extractor that is used when the configuration names none.
pub open spec fn default_extractor_name() -> Seq<char> {
    "numind/NuExtract-1.5"@
}

/// How a model is reached.
#[derive(Debug, Clone, PartialEq, Eq)]
pub enum ModelPlan {
    /// Run the model of this name here, from files that are fetched when
    /// they are missing and `auto_download` allows it.
    Local { name: String, auto_download: bool },
    /// Ask the Ollama service at `host` for `model`, pulling the model
    /// first when `pull` is set.
    Ollama { host: String, model: String, pull: bool },
    /// Ask OpenAI for `model` with this key.
    OpenAI { api_key: String, model: String },
}

/// Why no model can be had.
#[derive(Debug, Clone, Copy, PartialEq, Eq, Structural)]
pub enum ModelError {
    /// A local provider cannot embed on its own.
    LocalUnsupported,
    /// OpenAI is asked for and no key is at hand.
    MissingApiKey,
    /// The extractor's provider is none that the engine can use.
    UnsupportedExtractor(ExtractorProvider),
}

/// The host of an Ollama service: the one configured, else the usual one.
pub fn ollama_host(base_url: &Option<String>) -> (host: String)
    ensures
        host@ == (match *base_url {
            Some(url) => url@,
            None => default_ollama_host(),
        }),
{
    match base_url {
        Some(url) => url.clone(),
        None => String::from_str("http://localhost:11434"),
    }
}

/// Decides how the embedding model is reached.
pub fn embedder_plan(embedding: &ModelConfig) -> (plan: Result<ModelPlan, ModelError>)
    ensures
        embedding.provider == ModelProvider::Local <==> plan is Err,
        plan matches Err(error) ==> error == ModelError::LocalUnsupported,
        embedding.provider == ModelProvider::HuggingFace ==> (plan matches Ok(
            ModelPlan::Local { name, auto_download },
        ) && name@ == embedding.name@ && auto_download == embedding.auto_download),
        embedding.provider == ModelProvider::Ollama ==> (plan matches Ok(
            ModelPlan::Ollama { host, model, pull },
        ) && model@ == embedding.name@ && pull == embedding.auto_download && host@ == (
        match embedding.base_url {
            Some(url) => url@,
            None => default_ollama_host(),
        })),
{
    match embedding.provider {
        ModelProvider::HuggingFace => Ok(
            ModelPlan::Local {
                name: embedding.name.clone(),
                auto_download: embedding.auto_download,
            },
        ),
        ModelProvider::Ollama => Ok(
            ModelPlan::Ollama {
                host: ollama_host(&embedding.base_url),
                model: embedding.name.clone(),
                pull: embedding.auto_download,
            },
        ),
        ModelProvider::Local => Err(ModelError::LocalUnsupported),
    }
}

/// The key for OpenAI: the one configured, else the one of the environment.
pub fn openai_key(configured: &Option<String>, environment: Option<String>) -> (key: Option<
    String,
>)
    ensures
        key is None <==> configured is None && environment is None,
        key matches Some(k) ==> k@ == (match *configured {
            Some(c) => c@,
            None => environment->0@,
        }),
{
    match configured {
        Some(key) => Some(key.clone()),
        None => environment,
    }
}

/// Decides how the knowledge-graph extractor is reached. Without a
/// configured extractor the usual local one is taken. `environment_key` is
/// the key for OpenAI that the environment holds, if any.
pub fn extractor_plan(extractor: &Option<ExtractorConfig>, environment_key: Option<String>) -> (plan:
    Result<ModelPlan, ModelError>)
    ensures
        extractor is None ==> (plan matches Ok(ModelPlan::Local { name, auto_download }) && name@
            == default_extractor_name() && auto_download),
        extractor matches Some(config) ==> match config.provider {
            ExtractorProvider::HuggingFace => plan matches Ok(
                ModelPlan::Local { name, auto_download },
            ) && name@ == config.name@ && auto_download == config.auto_download,
            ExtractorProvider::Ollama => plan matches Ok(ModelPlan::Ollama { host, model, pull })
                && model@ == config.name@ && pull == config.auto_download && host@ == (
            match config.base_url {
                Some(url) => url@,
                None => default_ollama_host(),
            }),
            ExtractorProvider::OpenAI => if config.api_key is None && environment_key is None {
                plan == Err::<ModelPlan, ModelError>(ModelError::MissingApiKey)
            } else {
                plan matches Ok(ModelPlan::OpenAI { api_key, model }) && model@ == config.name@
                    && api_key@ == (match config.api_key {
                    Some(key) => key@,
                    None => environment_key->0@,
                })
            },
            other => plan == Err::<ModelPlan, ModelError>(ModelError::UnsupportedExtractor(other)),
        },
{
    match extractor {
        None => Ok(
            ModelPlan::Local { name: String::from_str("numind/NuExtract-1.5"), auto_download: true },
        ),
        Some(config) => match config.provider {
            ExtractorProvider::HuggingFace => Ok(
                ModelPlan::Local { name: config.name.clone(), auto_download: config.auto_download },
            ),
            ExtractorProvider::Ollama => Ok(
                ModelPlan::Ollama {
                    host: ollama_host(&config.base_url),
                    model: config.name.clone(),
                    pull: config.auto_download,
                },
            ),
            ExtractorProvider::OpenAI => match openai_key(&config.api_key, environment_key) {
                Some(api_key) => Ok(ModelPlan::OpenAI { api_key, model: config.name.clone() }),
                None => Err(ModelError::MissingApiKey),
            },
            ExtractorProvider::Anthropic => Err(
                ModelError::UnsupportedExtractor(ExtractorProvider::Anthropic),
            ),
            ExtractorProvider::Gemini => Err(
                ModelError::UnsupportedExtractor(ExtractorProvider::Gemini),
            ),
        },
    }
}

/// The models that are to be pulled from an Ollama service before use:
/// the embedder's and the extractor's, each if it is reached through
/// Ollama and marked for pulling, as pairs of model and host.
pub fn prepare_list(embedder: &ModelPlan, extractor: &ModelPlan) -> (pulls: Vec<(String, String)>)
    ensures
        pulls@.len() == (if embedder matches ModelPlan::Ollama { pull: true, .. } {
            1nat
        } else {
            0nat
        }) + (if extractor matches ModelPlan::Ollama { pull: true, .. } {
            1nat
        } else {
            0nat
        }),
        embedder matches ModelPlan::Ollama { host, model, pull: true } ==> pulls@[0].0@ == model@
            && pulls@[0].1@ == host@,
        extractor matches ModelPlan::Ollama { host, model, pull: true } ==> pulls@.last().0@
            == model@ && pulls@.last().1@ == host@,
{
    let mut pulls: Vec<(String, String)> = Vec::new();
    match embedder {
        ModelPlan::Ollama { host, model, pull } => {
            if *pull {
                pulls.push((model.clone(), host.clone()));
            }
        },
        _ => {},
    }
    match extractor {
        ModelPlan::Ollama { host, model, pull } => {
            if *pull {
                pulls.push((model.clone(), host.clone()));
            }
        },
        _ => {},
    }
    pulls
}

} // verus!
