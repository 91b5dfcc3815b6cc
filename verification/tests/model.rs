use local_memory::model::candle::get_model_dir;
use local_memory::model::candle::pub_test_missing_files;
use local_memory::model::candle::pub_test_model_exists;
use local_memory::model::candle::safe_model_name;
use local_memory::model::downloader::file_present;
use local_memory::model::downloader::model_files;
use local_memory::model::downloader::plan_files;
use local_memory::model::downloader::FilesPlan;
use local_memory::model::downloader::ModelDownloader;
use local_memory::model::nomic::Embedder;
use local_memory::model::nomic::MockEmbedder;
use std::path::Path;
use std::path::PathBuf;

fn names(list: &[&str]) -> Vec<String> {
    list.iter().map(|s| s.to_string()).collect()
}

#[test]
fn test_nomic_model_struct_exists() {}

#[test]
fn test_missing_files_empty_dir() {
    let missing = ModelDownloader::missing_files(&names(&[]));
    assert_eq!(missing.len(), 3);
    assert!(missing.contains(&"config.json".to_string()));
    assert!(missing.contains(&"tokenizer.json".to_string()));
    assert!(missing.contains(&"model.safetensors".to_string()));
}

#[test]
fn test_missing_files_partial() {
    let missing = ModelDownloader::missing_files(&names(&["config.json"]));
    assert_eq!(missing.len(), 2);
    assert!(!missing.contains(&"config.json".to_string()));
}

#[test]
fn test_model_exists_false() {
    assert!(!ModelDownloader::model_exists(&names(&[])));
}

#[test]
fn test_model_exists_true() {
    let present = names(&["config.json", "tokenizer.json", "model.safetensors"]);
    assert!(ModelDownloader::model_exists(&present));
}

#[test]
fn downloader_test_missing_files_empty_dir() {
    let missing = pub_test_missing_files(&names(&[]));
    assert_eq!(missing.len(), 3);
    assert!(missing.contains(&"config.json".to_string()));
    assert!(missing.contains(&"tokenizer.json".to_string()));
    assert!(missing.contains(&"model.safetensors".to_string()));
}

#[test]
fn downloader_test_model_exists_false() {
    assert!(!pub_test_model_exists(&names(&[])));
}

#[test]
fn missing_files_come_in_the_order_required() {
    assert_eq!(
        ModelDownloader::missing_files(&names(&[])),
        names(&["config.json", "tokenizer.json", "model.safetensors"])
    );
    assert_eq!(
        ModelDownloader::missing_files(&names(&["tokenizer.json"])),
        names(&["config.json", "model.safetensors"])
    );
    assert_eq!(
        ModelDownloader::missing_files(&names(&["model.safetensors", "config.json", "notes.txt"])),
        names(&["tokenizer.json"])
    );
    assert_eq!(
        pub_test_missing_files(&names(&["model.safetensors", "tokenizer.json", "config.json"])),
        names(&[])
    );
}

#[test]
fn model_exists_needs_every_file() {
    assert!(!ModelDownloader::model_exists(&names(&["config.json", "tokenizer.json"])));
    assert!(!ModelDownloader::model_exists(&names(&["Config.json", "tokenizer.json", "model.safetensors"])));
    assert!(ModelDownloader::model_exists(&names(&[
        "readme.md",
        "model.safetensors",
        "tokenizer.json",
        "config.json"
    ])));
    assert!(pub_test_model_exists(&names(&["config.json", "tokenizer.json", "model.safetensors"])));
}

#[test]
fn model_files_are_three() {
    assert_eq!(model_files(), names(&["config.json", "tokenizer.json", "model.safetensors"]));
    assert!(file_present(&names(&["a", "b"]), &"b".to_string()));
    assert!(!file_present(&names(&["a", "b"]), &"c".to_string()));
    assert!(!file_present(&names(&[]), &"a".to_string()));
}

#[test]
fn downloader_addresses_hugging_face() {
    let downloader = ModelDownloader::new("nomic-ai/nomic-embed-text-v1.5");
    assert_eq!(downloader.model_name, "nomic-ai/nomic-embed-text-v1.5");
    assert_eq!(
        downloader.base_url,
        "https://huggingface.co/nomic-ai/nomic-embed-text-v1.5/resolve/main"
    );
    assert_eq!(
        downloader.file_url("config.json"),
        "https://huggingface.co/nomic-ai/nomic-embed-text-v1.5/resolve/main/config.json"
    );
}

#[test]
fn files_are_fetched_only_when_missing_and_allowed() {
    assert_eq!(plan_files(true, true), FilesPlan::Ready);
    assert_eq!(plan_files(true, false), FilesPlan::Ready);
    assert_eq!(plan_files(false, true), FilesPlan::Download);
    assert_eq!(plan_files(false, false), FilesPlan::Refuse);
}

#[test]
fn model_directory_has_no_slashes_in_its_name() {
    assert_eq!(safe_model_name("nomic-ai/nomic-embed-text-v1.5"), "nomic-ai__nomic-embed-text-v1.5");
    assert_eq!(safe_model_name("plain"), "plain");
    assert_eq!(safe_model_name("a/b/c"), "a__b__c");
    assert_eq!(safe_model_name("//"), "____");
    assert_eq!(safe_model_name(""), "");
    assert_eq!(
        get_model_dir(Path::new(".local-memory/models"), "numind/NuExtract-1.5"),
        PathBuf::from(".local-memory/models").join("numind__NuExtract-1.5")
    );
}

#[test]
fn the_mock_embedder_embeds_as_zeros() {
    let embedded = MockEmbedder.encode("anything").unwrap();
    assert_eq!(embedded.len(), 768);
    assert!(embedded.iter().all(|bits| f32::from_bits(*bits) == 0.0));
    assert_eq!(MockEmbedder.encode("").unwrap(), vec![0u32; 768]);
}

#[test]
fn the_model_directory_lies_under_the_base() {
    let base = Path::new("/var/lib/models");
    assert_eq!(get_model_dir(base, "plain"), base.join("plain"));
    assert_eq!(get_model_dir(base, "a/b"), base.join("a__b"));
    assert_eq!(get_model_dir(base, "a/b"), PathBuf::from("/var/lib/models/a__b"));
    assert_eq!(get_model_dir(Path::new(""), "owner/model"), PathBuf::from("owner__model"));
    assert_eq!(get_model_dir(base, "a/b"), get_model_dir(base, "a/b"));
}
