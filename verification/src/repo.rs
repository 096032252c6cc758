//! Naming a repository: its kind, its identifier and the revision asked for,
//! and the names derived from them for folders and URLs.

use vstd::prelude::*;
use crate::text::replace_char;
use crate::text::replace_char_in;

verus! {

/// The kind of a repository.
#[derive(Debug, Clone, Copy, PartialEq, Eq, Structural)]
pub enum RepoType {
    /// A model; the default kind.
    Model,
    /// A dataset.
    Dataset,
    /// A space.
    Space,
}

/// The word that stands for a kind in folder names and API paths.
pub open spec fn kind_prefix(kind: RepoType) -> Seq<char> {
    match kind {
        RepoType::Model => "models"@,
        RepoType::Dataset => "datasets"@,
        RepoType::Space => "spaces"@,
    }
}

/// A repository at a revision.
#[derive(Debug)]
pub struct Repo {
    repo_id: String,
    repo_type: RepoType,
    revision: String,
}

/// What a `Repo` holds, as plain values.
pub struct RepoView {
    pub repo_id: Seq<char>,
    pub repo_type: RepoType,
    pub revision: Seq<char>,
}

impl RepoView {
    /// The name of the repository's folder in the cache: the kind's word,
    /// `--`, and the identifier, with every `/` written as `--`.
    pub open spec fn folder_name(self) -> Seq<char> {
        replace_char(kind_prefix(self.repo_type) + "--"@ + self.repo_id, '/', "--"@)
    }

    /// The path of the repository under an endpoint: the identifier, after
    /// `datasets/` or `spaces/` for those kinds.
    pub open spec fn url(self) -> Seq<char> {
        match self.repo_type {
            RepoType::Model => self.repo_id,
            RepoType::Dataset => "datasets/"@ + self.repo_id,
            RepoType::Space => "spaces/"@ + self.repo_id,
        }
    }

    /// The revision as it stands in a URL: every `/` written as `%2F`.
    pub open spec fn url_revision(self) -> Seq<char> {
        replace_char(self.revision, '/', "%2F"@)
    }

    /// The path of the repository's description under the API.
    pub open spec fn api_url(self) -> Seq<char> {
        kind_prefix(self.repo_type) + "/"@ + self.repo_id + "/revision/"@ + self.url_revision()
    }
}

impl View for Repo {
    type V = RepoView;

    closed spec fn view(&self) -> RepoView {
        RepoView { repo_id: self.repo_id@, repo_type: self.repo_type, revision: self.revision@ }
    }
}

impl Clone for Repo {
    fn clone(&self) -> (out: Repo)
        ensures
            out@ == self@,
    {
        Repo {
            repo_id: self.repo_id.clone(),
            repo_type: self.repo_type,
            revision: self.revision.clone(),
        }
    }
}

fn kind_word(kind: RepoType) -> (word: &'static str)
    ensures
        word@ == kind_prefix(kind),
{
    match kind {
        RepoType::Model => "models",
        RepoType::Dataset => "datasets",
        RepoType::Space => "spaces",
    }
}

impl Repo {
    /// The repository `repo_id` of kind `repo_type` at revision `main`.
    pub fn new(repo_id: String, repo_type: RepoType) -> (repo: Repo)
        ensures
            repo@ == (RepoView { repo_id: repo_id@, repo_type, revision: "main"@ }),
    {
        Self::with_revision(repo_id, repo_type, "main".to_owned())
    }

    /// The repository `repo_id` of kind `repo_type` at `revision`.
    pub fn with_revision(repo_id: String, repo_type: RepoType, revision: String) -> (repo: Repo)
        ensures
            repo@ == (RepoView { repo_id: repo_id@, repo_type, revision: revision@ }),
    {
        Self { repo_id, repo_type, revision }
    }

    /// The model `repo_id` at revision `main`.
    pub fn model(repo_id: String) -> (repo: Repo)
        ensures
            repo@ == (RepoView { repo_id: repo_id@, repo_type: RepoType::Model, revision: "main"@ }),
    {
        Self::new(repo_id, RepoType::Model)
    }

    /// The dataset `repo_id` at revision `main`.
    pub fn dataset(repo_id: String) -> (repo: Repo)
        ensures
            repo@ == (RepoView {
                repo_id: repo_id@,
                repo_type: RepoType::Dataset,
                revision: "main"@,
            }),
    {
        Self::new(repo_id, RepoType::Dataset)
    }

    /// The space `repo_id` at revision `main`.
    pub fn space(repo_id: String) -> (repo: Repo)
        ensures
            repo@ == (RepoView { repo_id: repo_id@, repo_type: RepoType::Space, revision: "main"@ }),
    {
        Self::new(repo_id, RepoType::Space)
    }

    /// The name of the repository's folder in the cache.
    pub fn folder_name(&self) -> (name: String)
        ensures
            name@ == self@.folder_name(),
    {
        let mut plain = kind_word(self.repo_type).to_owned();
        plain.append("--");
        plain.append(self.repo_id.as_str());
        replace_char_in(plain.as_str(), '/', "--")
    }

    /// The revision asked for.
    pub fn revision(&self) -> (revision: &str)
        ensures
            revision@ == self@.revision,
    {
        self.revision.as_str()
    }

    /// The path of the repository under an endpoint.
    pub fn url(&self) -> (url: String)
        ensures
            url@ == self@.url(),
    {
        match self.repo_type {
            RepoType::Model => self.repo_id.clone(),
            RepoType::Dataset => "datasets/".to_owned().concat(self.repo_id.as_str()),
            RepoType::Space => "spaces/".to_owned().concat(self.repo_id.as_str()),
        }
    }

    /// The revision as it stands in a URL.
    pub fn url_revision(&self) -> (revision: String)
        ensures
            revision@ == self@.url_revision(),
    {
        replace_char_in(self.revision.as_str(), '/', "%2F")
    }

    /// The path of the repository's description under the API.
    pub fn api_url(&self) -> (url: String)
        ensures
            url@ == self@.api_url(),
    {
        let mut url = kind_word(self.repo_type).to_owned();
        url.append("/");
        url.append(self.repo_id.as_str());
        url.append("/revision/");
        let revision = self.url_revision();
        url.append(revision.as_str());
        url
    }
}

} // verus!
