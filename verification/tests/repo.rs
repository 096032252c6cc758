use libhfd::repo::Repo;
use libhfd::repo::RepoType;

#[test]
fn a_new_repo_is_at_main() {
    let repo = Repo::new("gpt2".to_string(), RepoType::Model);
    assert_eq!(repo.revision(), "main");
    assert_eq!(Repo::model("gpt2".to_string()).revision(), "main");
    assert_eq!(Repo::dataset("o/n".to_string()).revision(), "main");
    assert_eq!(Repo::space("o/n".to_string()).revision(), "main");
}

#[test]
fn with_revision_keeps_the_revision() {
    let repo = Repo::with_revision("gpt2".to_string(), RepoType::Model, "refs/pr/1".to_string());
    assert_eq!(repo.revision(), "refs/pr/1");
}

#[test]
fn folder_name_joins_kind_owner_and_name() {
    assert_eq!(Repo::model("ByteDance/Hyper-SD".to_string()).folder_name(), "models--ByteDance--Hyper-SD");
    assert_eq!(Repo::dataset("OpenVideo/pexels-raw".to_string()).folder_name(), "datasets--OpenVideo--pexels-raw");
    assert_eq!(Repo::space("o/n".to_string()).folder_name(), "spaces--o--n");
    assert_eq!(Repo::model("gpt2".to_string()).folder_name(), "models--gpt2");
}

#[test]
fn url_puts_the_kind_before_datasets_and_spaces() {
    assert_eq!(Repo::model("ByteDance/Hyper-SD".to_string()).url(), "ByteDance/Hyper-SD");
    assert_eq!(Repo::dataset("o/n".to_string()).url(), "datasets/o/n");
    assert_eq!(Repo::space("o/n".to_string()).url(), "spaces/o/n");
}

#[test]
fn url_revision_escapes_slashes() {
    let repo = Repo::with_revision("gpt2".to_string(), RepoType::Model, "refs/pr/1".to_string());
    assert_eq!(repo.url_revision(), "refs%2Fpr%2F1");
    assert_eq!(Repo::model("gpt2".to_string()).url_revision(), "main");
}

#[test]
fn api_url_names_kind_identifier_and_revision() {
    assert_eq!(Repo::model("gpt2".to_string()).api_url(), "models/gpt2/revision/main");
    let repo = Repo::with_revision("o/n".to_string(), RepoType::Dataset, "refs/pr/1".to_string());
    assert_eq!(repo.api_url(), "datasets/o/n/revision/refs%2Fpr%2F1");
    assert_eq!(Repo::space("o/n".to_string()).api_url(), "spaces/o/n/revision/main");
}

#[test]
fn a_clone_names_the_same_repository() {
    let repo = Repo::with_revision("o/n".to_string(), RepoType::Space, "dev".to_string());
    let copy = repo.clone();
    assert_eq!(copy.folder_name(), repo.folder_name());
    assert_eq!(copy.revision(), "dev");
    assert_eq!(copy.url(), "spaces/o/n");
}
