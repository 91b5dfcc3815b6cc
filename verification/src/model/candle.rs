//! Where the files of a local model are kept.

use std::path::Path;
use std::path::PathBuf;
use vstd::prelude::*;

use crate::text::occurs_in;
use crate::text::text_contains;
use crate::model::downloader::has_file;
use crate::model::downloader::missing_of;
use crate::model::downloader::required_files;
use crate::model::downloader::texts;
use crate::model::downloader::ModelDownloader;

verus! {

#[verifier::external_type_specification]
#[verifier::external_body]
pub struct ExPath(Path);

#[verifier::external_type_specification]
#[verifier::external_body]
pub struct ExPathBuf(PathBuf);

/// A model's name made fit for a directory name: each slash gives way to
/// two underscores.
pub open spec fn without_slashes(name: Seq<char>) -> Seq<char>
    decreases name.len(),
{
    if name.len() == 0 {
        Seq::empty()
    } else if name.last() == '/' {
        without_slashes(name.drop_last()) + seq!['_', '_']
    } else {
        without_slashes(name.drop_last()).push(name.last())
    }
}

/// Calls `str::replace` to put two underscores in place of each slash.
#[verifier::external_body]
fn replace_slashes(name: &str) -> (safe: String)
    ensures
        safe@ == without_slashes(name@),
{
    name.replace("/", "__")
}

/// What `Path::join` makes of a base path and a name to go under it: the
/// path of that name under the base. It is a matter of the base and the
/// text of the name alone, read by the rules of the platform that the
/// program is built for.
pub uninterp spec fn joined(base: &Path, name: Seq<char>) -> PathBuf;

/// The name of the directory that holds the files of a model.
pub fn safe_model_name(model_name: &str) -> (safe: String)
    ensures
        safe@ == without_slashes(model_name@),
{
    replace_slashes(model_name)
}

/// The directory under `base_path` that holds the files of a model: the
/// one named by the model's name with two underscores for each slash.
pub fn get_model_dir(base_path: &Path, model_name: &str) -> (dir: PathBuf)
    ensures
        dir == joined(base_path, without_slashes(model_name@)),
{
    let safe_name = safe_model_name(model_name);
    path_join(base_path, safe_name.as_str())
}

/// Calls `Path::join`: the path of `name` under `base`.
#[verifier::external_body]
fn path_join(base: &Path, name: &str) -> (dir: PathBuf)
    ensures
        dir == joined(base, name@),
{
    base.join(name)
}

/// Whether every file of a model is among the files present in its
/// directory.
pub fn pub_test_model_exists(present: &Vec<String>) -> (complete: bool)
    ensures
        complete <==> forall|k: int|
            0 <= k < required_files().len() ==> has_file(present@, #[trigger] required_files()[k]),
{
    ModelDownloader::model_exists(present)
}

/// The files of a model that are not among the files present in its
/// directory.
pub fn pub_test_missing_files(present: &Vec<String>) -> (missing: Vec<String>)
    ensures
        texts(missing@) == missing_of(present@),
{
    ModelDownloader::missing_files(present)
}

/// The architecture of a local model.
#[derive(Debug, Clone, Copy, PartialEq, Eq, Structural)]
pub enum ModelFamily {
    /// A BERT encoder, which embeds.
    Bert,
    /// A Phi-3 decoder, which generates.
    Phi3,
    /// Neither: nothing is loaded for it.
    Unknown,
}

/// The architecture that a model's name gives away.
pub open spec fn family_of(name: Seq<char>) -> ModelFamily {
    if occurs_in(name, "bert"@) || occurs_in(name, "nomic"@) {
        ModelFamily::Bert
    } else if occurs_in(name, "NuExtract"@) || occurs_in(name, "phi"@) {
        ModelFamily::Phi3
    } else {
        ModelFamily::Unknown
    }
}

/// Tells the architecture of a local model from its name.
pub fn model_family(name: &str) -> (family: ModelFamily)
    ensures
        family == family_of(name@),
{
    if text_contains(name, "bert") || text_contains(name, "nomic") {
        ModelFamily::Bert
    } else if text_contains(name, "NuExtract") || text_contains(name, "phi") {
        ModelFamily::Phi3
    } else {
        ModelFamily::Unknown
    }
}

/// What is put before a text that is embedded: a lone text is taken for a
/// query, several for documents.
pub fn embed_prefix(count: usize) -> (prefix: &'static str)
    ensures
        prefix@ == (if count == 1 {
            "search_query: "@
        } else {
            "search_document: "@
        }),
{
    if count == 1 {
        "search_query: "
    } else {
        "search_document: "
    }
}

} // verus!
