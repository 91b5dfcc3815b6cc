//! The files of a Hugging Face model and where they are fetched from.

use vstd::prelude::*;
use vstd::string::StringExecFns;

use crate::engine::ranking::kept;
use crate::engine::ranking::lemma_kept;
use crate::engine::ranking::select;

verus! {

/// The names of the files that make up a model.
pub open spec fn required_files() -> Seq<Seq<char>> {
    seq!["config.json"@, "tokenizer.json"@, "model.safetensors"@]
}

/// Whether a file of the given name is among those present.
pub open spec fn has_file(present: Seq<String>, name: Seq<char>) -> bool {
    exists|i: int| 0 <= i < present.len() && (#[trigger] present[i])@ == name
}

/// For each required file, whether it is missing.
pub open spec fn missing_marks(present: Seq<String>) -> Seq<bool> {
    Seq::new(required_files().len(), |k: int| !has_file(present, required_files()[k]))
}

/// The names of the required files that are missing, in the order in which
/// they are required.
pub open spec fn missing_of(present: Seq<String>) -> Seq<Seq<char>> {
    select(required_files(), kept(missing_marks(present), required_files().len()))
}

/// The texts of a list of strings.
pub open spec fn texts(names: Seq<String>) -> Seq<Seq<char>> {
    Seq::new(names.len(), |i: int| names[i]@)
}

/// Lists the names of the files that make up a model.
pub fn model_files() -> (files: Vec<String>)
    ensures
        texts(files@) == required_files(),
{
    let mut files: Vec<String> = Vec::new();
    files.push(String::from_str("config.json"));
    files.push(String::from_str("tokenizer.json"));
    files.push(String::from_str("model.safetensors"));
    assert(texts(files@) =~= required_files());
    files
}

/// Tests whether a file of the given name is among those present.
pub fn file_present(present: &Vec<String>, name: &String) -> (found: bool)
    ensures
        found == has_file(present@, name@),
{
    let mut i: usize = 0;
    while i < present.len()
        invariant
            i <= present@.len(),
            forall|j: int| 0 <= j < i ==> (#[trigger] present@[j])@ != name@,
        decreases present@.len() - i,
    {
        if present[i] == *name {
            return true;
        }
        i += 1;
    }
    false
}

/// What is to be done about the files of a model.
#[derive(Debug, Clone, Copy, PartialEq, Eq, Structural)]
pub enum FilesPlan {
    /// Nothing: every file is there.
    Ready,
    /// Fetch the missing files.
    Download,
    /// Give up: files are missing and fetching is switched off.
    Refuse,
}

/// Decides what is to be done about the files of a model, given whether
/// all of them are there and whether missing ones may be fetched.
pub fn plan_files(complete: bool, auto_download: bool) -> (plan: FilesPlan)
    ensures
        plan == (if complete {
            FilesPlan::Ready
        } else if auto_download {
            FilesPlan::Download
        } else {
            FilesPlan::Refuse
        }),
{
    if complete {
        FilesPlan::Ready
    } else if auto_download {
        FilesPlan::Download
    } else {
        FilesPlan::Refuse
    }
}

/// Fetches the files of a Hugging Face model.
#[derive(Debug, Clone)]
pub struct ModelDownloader {
    /// Name of the model, `owner/model`.
    pub model_name: String,
    /// Address under which the model's files are found.
    pub base_url: String,
}

impl ModelDownloader {
    /// A downloader for the model of the given name.
    pub fn new(model_name: &str) -> (downloader: Self)
        ensures
            downloader.model_name@ == model_name@,
            downloader.base_url@ == "https://huggingface.co/"@ + model_name@ + "/resolve/main"@,
    {
        let mut base_url = String::from_str("https://huggingface.co/");
        base_url.append(model_name);
        base_url.append("/resolve/main");
        ModelDownloader { model_name: String::from_str(model_name), base_url }
    }

    /// The address of one file of the model.
    pub fn file_url(&self, filename: &str) -> (url: String)
        ensures
            url@ == self.base_url@ + "/"@ + filename@,
    {
        let mut url = self.base_url.clone();
        url.append("/");
        url.append(filename);
        url
    }

    /// Whether every file of a model is among the files present in its
    /// directory.
    pub fn model_exists(present: &Vec<String>) -> (complete: bool)
        ensures
            complete <==> forall|k: int|
                0 <= k < required_files().len() ==> has_file(present@, #[trigger] required_files()[k]),
            complete <==> missing_of(present@).len() == 0,
    {
        let missing = ModelDownloader::missing_files(present);
        proof {
            lemma_kept(missing_marks(present@), required_files().len());
            let places = kept(missing_marks(present@), required_files().len());
            assert(texts(missing@).len() == missing@.len());
            assert(missing_of(present@).len() == places.len());
            if missing@.len() == 0 {
                assert forall|k: int| 0 <= k < required_files().len() implies has_file(
                    present@,
                    #[trigger] required_files()[k],
                ) by {
                    if missing_marks(present@)[k] {
                        assert(places.contains(k));
                        let at = choose|at: int| 0 <= at < places.len() && places[at] == k;
                    }
                }
            } else {
                let k = places[0];
                assert(missing_marks(present@)[k]);
                assert(!has_file(present@, required_files()[k]));
            }
        }
        missing.len() == 0
    }

    /// The files of a model that are not among the files present in its
    /// directory, in the order in which they are required.
    pub fn missing_files(present: &Vec<String>) -> (missing: Vec<String>)
        ensures
            texts(missing@) == missing_of(present@),
    {
        let files = model_files();
        let ghost required = required_files();
        let ghost marks = missing_marks(present@);
        let mut missing: Vec<String> = Vec::new();
        let mut k: usize = 0;
        while k < files.len()
            invariant
                k <= files@.len() == required.len(),
                texts(files@) == required,
                required == required_files(),
                marks == missing_marks(present@),
                texts(missing@) == select(required, kept(marks, k as nat)),
            decreases files@.len() - k,
        {
            let ghost before = texts(missing@);
            assert(files@[k as int]@ == texts(files@)[k as int]);
            if !file_present(present, &files[k]) {
                missing.push(files[k].clone());
                assert(texts(missing@) =~= before.push(required[k as int]));
                assert(select(required, kept(marks, k as nat).push(k as int)) =~= before.push(
                    required[k as int],
                ));
            } else {
                assert(texts(missing@) =~= before);
            }
            k += 1;
        }
        assert(texts(missing@) =~= missing_of(present@));
        missing
    }
}

} // verus!
