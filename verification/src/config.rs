//! Configuration of the engine: where things are kept, which models are
//! used, and how many candidates each retrieval stage passes on.

use vstd::prelude::*;
use vstd::string::StringExecFns;

pub use crate::storage::tier::MemoryTier;
pub use crate::storage::tier::TierConfig;

verus! {

/// Where an embedding model comes from.
#[derive(Debug, Clone, Copy, PartialEq, Eq, Structural)]
pub enum ModelProvider {
    HuggingFace,
    Local,
    Ollama,
}

impl Default for ModelProvider {
    fn default() -> (provider: Self)
        ensures
            provider == ModelProvider::HuggingFace,
    {
        ModelProvider::HuggingFace
    }
}

/// The embedding model.
#[derive(Debug, Clone, PartialEq)]
pub struct ModelConfig {
    /// Name of the model.
    pub name: String,
    /// Where the model comes from.
    pub provider: ModelProvider,
    /// Whether missing model files are fetched without asking.
    pub auto_download: bool,
    /// Number of components of the vectors that the model produces.
    pub dimension: usize,
    /// Address of the model's service, where it has one.
    pub base_url: Option<String>,
}

/// Whether missing files are fetched when the configuration does not say.
pub fn default_auto_download() -> (fetch: bool)
    ensures
        fetch,
{
    true
}

/// The embedding dimension when the configuration names none.
pub fn default_dimension() -> (dimension: usize)
    ensures
        dimension == 768,
{
    768
}

/// Where the store is kept when the configuration names no place.
pub fn default_storage_path() -> (path: String)
    ensures
        path@ == ".local-memory/storage"@,
{
    String::from_str(".local-memory/storage")
}

/// Where model files are kept when the configuration names no place.
pub fn default_model_path() -> (path: String)
    ensures
        path@ == ".local-memory/models"@,
{
    String::from_str(".local-memory/models")
}

impl Default for ModelConfig {
    fn default() -> (config: Self)
        ensures
            config.name@ == "nomic-ai/nomic-embed-text-v1.5"@,
            config.provider == ModelProvider::HuggingFace,
            config.auto_download,
            config.dimension == 768,
            config.base_url is None,
    {
        ModelConfig {
            name: String::from_str("nomic-ai/nomic-embed-text-v1.5"),
            provider: ModelProvider::HuggingFace,
            auto_download: true,
            dimension: 768,
            base_url: None,
        }
    }
}

/// Who runs the model that extracts the knowledge graph.
#[derive(Debug, Clone, Copy, PartialEq, Eq, Structural)]
pub enum ExtractorProvider {
    OpenAI,
    Anthropic,
    Gemini,
    Ollama,
    HuggingFace,
}

/// The model that extracts the knowledge graph.
#[derive(Debug, Clone, PartialEq)]
pub struct ExtractorConfig {
    /// Who runs the model.
    pub provider: ExtractorProvider,
    /// Name of the model.
    pub name: String,
    /// Whether a missing model is fetched without asking.
    pub auto_download: bool,
    /// Key for the provider's service, where it asks for one.
    pub api_key: Option<String>,
    /// Address of the provider's service, where it is not the usual one.
    pub base_url: Option<String>,
}

/// How many candidates the first two retrieval stages pass on.
#[derive(Debug, Clone, Copy, PartialEq, Eq, Structural)]
pub struct SearchStages {
    /// Candidates kept by the Hamming scan.
    pub stage1_k: usize,
    /// Candidates kept by the Matryoshka refinement.
    pub stage2_k: usize,
}

impl Default for SearchStages {
    fn default() -> (stages: Self)
        ensures
            stages.stage1_k == 100,
            stages.stage2_k == 20,
    {
        SearchStages { stage1_k: 100, stage2_k: 20 }
    }
}

/// The whole configuration.
#[derive(Debug, Clone, PartialEq)]
pub struct Config {
    /// Directory of the store.
    pub storage_path: String,
    /// Directory of the model files.
    pub model_path: String,
    /// Tiers and lifetimes.
    pub tier: TierConfig,
    /// The embedding model.
    pub embedding: ModelConfig,
    /// The knowledge-graph extractor, if one is used.
    pub llm_extractor: Option<ExtractorConfig>,
    /// Candidate counts of the retrieval stages.
    pub search_stages: SearchStages,
}

impl Default for Config {
    fn default() -> (config: Self)
        ensures
            config.storage_path@ == ".local-memory/storage"@,
            config.model_path@ == ".local-memory/models"@,
            config.tier.default_tier == MemoryTier::Semantic,
            config.tier.default_episodic_ttl_seconds == Some(3600u64),
            config.embedding.name@ == "nomic-ai/nomic-embed-text-v1.5"@,
            config.embedding.provider == ModelProvider::HuggingFace,
            config.embedding.auto_download,
            config.embedding.dimension == 768,
            config.embedding.base_url is None,
            config.llm_extractor matches Some(extractor) && extractor.provider
                == ExtractorProvider::HuggingFace && extractor.name@ == "numind/NuExtract-1.5"@
                && extractor.auto_download && extractor.api_key is None && extractor.base_url
                is None,
            config.search_stages.stage1_k == 100,
            config.search_stages.stage2_k == 20,
    {
        Config {
            storage_path: default_storage_path(),
            model_path: default_model_path(),
            tier: TierConfig::default(),
            embedding: ModelConfig::default(),
            llm_extractor: Some(
                ExtractorConfig {
                    provider: ExtractorProvider::HuggingFace,
                    name: String::from_str("numind/NuExtract-1.5"),
                    auto_download: true,
                    api_key: None,
                    base_url: None,
                },
            ),
            search_stages: SearchStages::default(),
        }
    }
}

} // verus!
