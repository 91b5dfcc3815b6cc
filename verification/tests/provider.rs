use local_memory::config::Config;
use local_memory::config::ExtractorConfig;
use local_memory::config::ExtractorProvider;
use local_memory::config::ModelConfig;
use local_memory::config::ModelProvider;
use local_memory::model::candle::embed_prefix;
use local_memory::model::candle::model_family;
use local_memory::model::candle::ModelFamily;
use local_memory::model::provider::embedder_plan;
use local_memory::model::provider::extractor_plan;
use local_memory::model::provider::ollama_host;
use local_memory::model::provider::openai_key;
use local_memory::model::provider::prepare_list;
use local_memory::model::provider::ModelError;
use local_memory::model::provider::ModelPlan;

fn extractor(provider: ExtractorProvider) -> ExtractorConfig {
    ExtractorConfig {
        provider,
        name: "llama3".to_string(),
        auto_download: true,
        api_key: None,
        base_url: Some("http://localhost:11434".to_string()),
    }
}

#[test]
fn the_default_embedder_runs_here() {
    let config = Config::default();
    assert_eq!(
        embedder_plan(&config.embedding),
        Ok(ModelPlan::Local { name: "nomic-ai/nomic-embed-text-v1.5".to_string(), auto_download: true })
    );
}

#[test]
fn an_ollama_embedder_is_reached_at_its_host() {
    let mut model = ModelConfig::default();
    model.provider = ModelProvider::Ollama;
    model.name = "nomic-embed-text".to_string();
    assert_eq!(
        embedder_plan(&model),
        Ok(ModelPlan::Ollama {
            host: "http://localhost:11434".to_string(),
            model: "nomic-embed-text".to_string(),
            pull: true
        })
    );
    model.base_url = Some("http://gpu-box:11434".to_string());
    model.auto_download = false;
    assert_eq!(
        embedder_plan(&model),
        Ok(ModelPlan::Ollama {
            host: "http://gpu-box:11434".to_string(),
            model: "nomic-embed-text".to_string(),
            pull: false
        })
    );
}

#[test]
fn a_local_embedder_is_refused() {
    let mut model = ModelConfig::default();
    model.provider = ModelProvider::Local;
    assert_eq!(embedder_plan(&model), Err(ModelError::LocalUnsupported));
}

#[test]
fn test_get_llm_provider_ollama_config() {
    let mut config = Config::default();
    config.llm_extractor = Some(ExtractorConfig {
        provider: ExtractorProvider::Ollama,
        name: "llama3".to_string(),
        api_key: None,
        base_url: Some("http://localhost:11434".to_string()),
        auto_download: true,
    });

    let provider = extractor_plan(&config.llm_extractor, None);
    assert!(provider.is_ok());
    assert_eq!(
        provider.unwrap(),
        ModelPlan::Ollama {
            host: "http://localhost:11434".to_string(),
            model: "llama3".to_string(),
            pull: true
        }
    );
}

#[test]
fn without_an_extractor_the_usual_one_is_taken() {
    assert_eq!(
        extractor_plan(&None, None),
        Ok(ModelPlan::Local { name: "numind/NuExtract-1.5".to_string(), auto_download: true })
    );
    assert_eq!(
        extractor_plan(&Config::default().llm_extractor, Some("key".to_string())),
        Ok(ModelPlan::Local { name: "numind/NuExtract-1.5".to_string(), auto_download: true })
    );
}

#[test]
fn openai_needs_a_key() {
    let mut config = extractor(ExtractorProvider::OpenAI);
    config.name = "gpt-4o-mini".to_string();
    assert_eq!(extractor_plan(&Some(config.clone()), None), Err(ModelError::MissingApiKey));
    assert_eq!(
        extractor_plan(&Some(config.clone()), Some("env-key".to_string())),
        Ok(ModelPlan::OpenAI { api_key: "env-key".to_string(), model: "gpt-4o-mini".to_string() })
    );
    config.api_key = Some("own-key".to_string());
    assert_eq!(
        extractor_plan(&Some(config), Some("env-key".to_string())),
        Ok(ModelPlan::OpenAI { api_key: "own-key".to_string(), model: "gpt-4o-mini".to_string() })
    );
}

#[test]
fn other_extractors_are_unsupported() {
    assert_eq!(
        extractor_plan(&Some(extractor(ExtractorProvider::Anthropic)), Some("k".to_string())),
        Err(ModelError::UnsupportedExtractor(ExtractorProvider::Anthropic))
    );
    assert_eq!(
        extractor_plan(&Some(extractor(ExtractorProvider::Gemini)), None),
        Err(ModelError::UnsupportedExtractor(ExtractorProvider::Gemini))
    );
}

#[test]
fn hosts_and_keys_fall_back() {
    assert_eq!(ollama_host(&None), "http://localhost:11434");
    assert_eq!(ollama_host(&Some("http://other:1".to_string())), "http://other:1");
    assert_eq!(openai_key(&None, None), None);
    assert_eq!(openai_key(&None, Some("e".to_string())), Some("e".to_string()));
    assert_eq!(openai_key(&Some("c".to_string()), None), Some("c".to_string()));
    assert_eq!(openai_key(&Some("c".to_string()), Some("e".to_string())), Some("c".to_string()));
}

#[test]
fn models_marked_for_pulling_are_listed() {
    let local = ModelPlan::Local { name: "a".to_string(), auto_download: true };
    let embed = ModelPlan::Ollama { host: "h1".to_string(), model: "m1".to_string(), pull: true };
    let extract = ModelPlan::Ollama { host: "h2".to_string(), model: "m2".to_string(), pull: true };
    let quiet = ModelPlan::Ollama { host: "h3".to_string(), model: "m3".to_string(), pull: false };
    assert_eq!(prepare_list(&local, &local), vec![]);
    assert_eq!(
        prepare_list(&embed, &extract),
        vec![("m1".to_string(), "h1".to_string()), ("m2".to_string(), "h2".to_string())]
    );
    assert_eq!(prepare_list(&embed, &local), vec![("m1".to_string(), "h1".to_string())]);
    assert_eq!(prepare_list(&local, &extract), vec![("m2".to_string(), "h2".to_string())]);
    assert_eq!(prepare_list(&quiet, &extract), vec![("m2".to_string(), "h2".to_string())]);
    assert_eq!(prepare_list(&embed, &quiet), vec![("m1".to_string(), "h1".to_string())]);
}

#[test]
fn the_family_of_a_model_shows_in_its_name() {
    assert_eq!(model_family("nomic-ai/nomic-embed-text-v1.5"), ModelFamily::Bert);
    assert_eq!(model_family("google-bert/bert-base-uncased"), ModelFamily::Bert);
    assert_eq!(model_family("numind/NuExtract-1.5"), ModelFamily::Phi3);
    assert_eq!(model_family("microsoft/phi-3-mini-4k-instruct"), ModelFamily::Phi3);
    assert_eq!(model_family("llama3"), ModelFamily::Unknown);
    assert_eq!(model_family(""), ModelFamily::Unknown);
    assert_eq!(model_family("Phi-3"), ModelFamily::Unknown);
    assert_eq!(model_family("nomic-phi"), ModelFamily::Bert);
}

#[test]
fn a_lone_text_is_embedded_as_a_query() {
    assert_eq!(embed_prefix(1), "search_query: ");
    assert_eq!(embed_prefix(0), "search_document: ");
    assert_eq!(embed_prefix(2), "search_document: ");
    assert_eq!(embed_prefix(100), "search_document: ");
}
