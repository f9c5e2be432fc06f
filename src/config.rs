//! Startup settings that reach the library as plain values.
use vstd::prelude::*;

verus! {

/// Where the engine takes its vocabulary from.
#[derive(PartialEq, Eq, Clone, Debug)]
pub enum VocabularySource {
    /// A tokenizer file on disk.
    TokenizerFile(String),
    /// A tokenizer fetched from a remote repository.
    Remote(String),
    /// The vocabulary stored in the model file itself.
    Model,
}

/// The settings of a server process: the model, the vocabulary, and where to
/// listen.
pub struct Args {
    pub model_path: String,
    pub vocabulary_path: Option<String>,
    pub vocabulary_repository: Option<String>,
    pub host: String,
    pub port: u16,
}

impl Args {
    /// A vocabulary file and a vocabulary repository cannot both be given.
    pub open spec fn vocabulary_conflict(&self) -> bool {
        self.vocabulary_path is Some && self.vocabulary_repository is Some
    }

    /// Picks the vocabulary: the file if one was given, else the repository
    /// if one was given, else the model's own.
    pub fn to_vocabulary_source(&self) -> (r: VocabularySource)
        requires
            !self.vocabulary_conflict(),
        ensures
            self.vocabulary_path matches Some(p) ==> r == VocabularySource::TokenizerFile(p),
            self.vocabulary_repository matches Some(repo) ==> r == VocabularySource::Remote(repo),
            self.vocabulary_path is None && self.vocabulary_repository is None ==> r
                == VocabularySource::Model,
    {
        match (&self.vocabulary_path, &self.vocabulary_repository) {
            (Some(path), _) => VocabularySource::TokenizerFile(path.clone()),
            (None, Some(repo)) => VocabularySource::Remote(repo.clone()),
            (None, None) => VocabularySource::Model,
        }
    }
}

} // verus!
