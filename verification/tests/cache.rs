use libhfd::cache::symlink_or_rename;
use libhfd::cache::Cache;
use libhfd::cache::FinalizeStep;
use libhfd::cache::LinkAction;
use libhfd::cache::LinkEvent;
use libhfd::repo::Repo;
use libhfd::repo::RepoType;
use libhfd::resolve::Metadata;

fn cache() -> Cache {
    Cache::new("/home/u/.cache/huggingface/hub".to_string())
}

fn meta(etag: &str, commit: &str, size: u64) -> Metadata {
    Metadata { commit_hash: commit.to_string(), etag: etag.to_string(), size }
}

#[test]
fn path_is_the_root() {
    assert_eq!(cache().path(), "/home/u/.cache/huggingface/hub");
    assert_eq!(cache().clone().path(), "/home/u/.cache/huggingface/hub");
}

#[test]
fn token_path_is_beside_the_root() {
    assert_eq!(cache().token_path(), "/home/u/.cache/huggingface/token");
    assert_eq!(Cache::new("hub".to_string()).token_path(), "token");
    assert_eq!(Cache::new("/hub".to_string()).token_path(), "/token");
}

#[test]
fn token_path_of_a_root_without_parent_is_inside() {
    assert_eq!(Cache::new("/".to_string()).token_path(), "/token");
    assert_eq!(Cache::new("".to_string()).token_path(), "token");
}

#[test]
fn token_is_the_trimmed_content() {
    assert_eq!(Cache::token("hf_abc\n"), Some("hf_abc".to_string()));
    assert_eq!(Cache::token("  hf_abc  "), Some("hf_abc".to_string()));
    assert_eq!(Cache::token("hf abc"), Some("hf abc".to_string()));
}

#[test]
fn an_empty_token_file_gives_no_token() {
    assert_eq!(Cache::token(""), None);
    assert_eq!(Cache::token(" \n\t"), None);
}

#[test]
fn from_home_prefers_the_override() {
    assert_eq!(Cache::from_home(Some("/data/hf"), Some("/home/u")).unwrap().path(), "/data/hf/hub");
    assert_eq!(Cache::from_home(Some("/data/hf"), None).unwrap().path(), "/data/hf/hub");
}

#[test]
fn from_home_falls_back_to_the_home_directory() {
    assert_eq!(
        Cache::from_home(None, Some("/home/u")).unwrap().path(),
        "/home/u/.cache/huggingface/hub"
    );
}

#[test]
fn from_home_without_either_is_none() {
    assert!(Cache::from_home(None, None).is_none());
}

#[test]
fn repo_paths_follow_the_layout() {
    let view = cache().model("ByteDance/Hyper-SD".to_string());
    let base = "/home/u/.cache/huggingface/hub/models--ByteDance--Hyper-SD";
    assert_eq!(view.path(), base);
    assert_eq!(view.ref_path(), format!("{}/refs/main", base));
    assert_eq!(view.blob_path("abc123"), format!("{}/blobs/abc123", base));
    assert_eq!(view.pointer_path("deadbeef"), format!("{}/snapshots/deadbeef", base));
}

#[test]
fn dataset_and_space_views_use_their_kind() {
    assert_eq!(
        cache().dataset("o/n".to_string()).path(),
        "/home/u/.cache/huggingface/hub/datasets--o--n"
    );
    assert_eq!(cache().space("o/n".to_string()).path(), "/home/u/.cache/huggingface/hub/spaces--o--n");
    let repo = Repo::with_revision("o/n".to_string(), RepoType::Dataset, "dev".to_string());
    assert_eq!(
        cache().repo(repo).ref_path(),
        "/home/u/.cache/huggingface/hub/datasets--o--n/refs/dev"
    );
}

#[test]
fn get_without_reference_is_not_cached() {
    assert_eq!(cache().model("gpt2".to_string()).get(None, "model.safetensors"), None);
}

#[test]
fn get_names_the_pointer_of_the_recorded_commit() {
    let view = cache().model("gpt2".to_string());
    assert_eq!(
        view.get(Some("deadbeef"), "model.safetensors"),
        Some("/home/u/.cache/huggingface/hub/models--gpt2/snapshots/deadbeef/model.safetensors".to_string())
    );
}

#[test]
fn get_twice_returns_the_same_path() {
    let view = cache().model("gpt2".to_string());
    let first = view.get(Some("deadbeef"), "data/a.bin");
    let second = view.get(Some("deadbeef"), "data/a.bin");
    assert!(first.is_some());
    assert_eq!(first, second);
}

#[test]
fn create_ref_writes_the_trimmed_hash() {
    let record = cache().model("gpt2".to_string()).create_ref("  deadbeef\n");
    assert_eq!(record.path, "/home/u/.cache/huggingface/hub/models--gpt2/refs/main");
    assert_eq!(record.dir, Some("/home/u/.cache/huggingface/hub/models--gpt2/refs".to_string()));
    assert_eq!(record.content, "deadbeef");
}

#[test]
fn create_ref_for_a_nested_revision_makes_its_directory() {
    let repo = Repo::with_revision("gpt2".to_string(), RepoType::Model, "refs/pr/1".to_string());
    let record = cache().repo(repo).create_ref("c0ffee");
    assert_eq!(record.path, "/home/u/.cache/huggingface/hub/models--gpt2/refs/refs/pr/1");
    assert_eq!(record.dir, Some("/home/u/.cache/huggingface/hub/models--gpt2/refs/refs/pr".to_string()));
}

#[test]
fn finalize_plan_names_every_step() {
    let view = cache().model("gpt2".to_string());
    let plan = view.finalize_plan(&meta("abc123", "deadbeef", 10), "model.safetensors", false);
    let base = "/home/u/.cache/huggingface/hub/models--gpt2";
    assert_eq!(plan.blob_path, format!("{}/blobs/abc123", base));
    assert_eq!(plan.blob_dir, Some(format!("{}/blobs", base)));
    assert_eq!(plan.pointer_path, format!("{}/snapshots/deadbeef/model.safetensors", base));
    assert_eq!(plan.pointer_dir, Some(format!("{}/snapshots/deadbeef", base)));
    assert_eq!(plan.link_target, Some("../../blobs/abc123".to_string()));
    assert_eq!(plan.reference.path, format!("{}/refs/main", base));
    assert_eq!(plan.reference.dir, Some(format!("{}/refs", base)));
    assert_eq!(plan.reference.content, "deadbeef");
}

#[test]
fn finalize_plan_for_a_nested_file() {
    let view = Cache::new("hub".to_string()).dataset("o/n".to_string());
    let plan = view.finalize_plan(&meta("e", "c", 1), "data/000001.parquet", false);
    assert_eq!(plan.blob_path, "hub/datasets--o--n/blobs/e");
    assert_eq!(plan.pointer_path, "hub/datasets--o--n/snapshots/c/data/000001.parquet");
    assert_eq!(plan.pointer_dir, Some("hub/datasets--o--n/snapshots/c/data".to_string()));
    assert_eq!(plan.link_target, Some("../../../blobs/e".to_string()));
}

#[test]
fn finalize_plan_has_no_link_target_between_unlike_paths() {
    let view = Cache::new("hub".to_string()).model("gpt2".to_string());
    let plan = view.finalize_plan(&meta("/abs/etag", "c", 1), "f", false);
    assert_eq!(plan.blob_path, "/abs/etag");
    assert_eq!(plan.pointer_path, "hub/models--gpt2/snapshots/c/f");
    assert_eq!(plan.link_target, None);
}

#[test]
fn two_names_with_one_etag_share_a_blob_and_have_two_pointers() {
    let view = cache().model("gpt2".to_string());
    let a = view.finalize_plan(&meta("same", "deadbeef", 10), "a.bin", false);
    let b = view.finalize_plan(&meta("same", "deadbeef", 10), "b.bin", false);
    assert_eq!(a.blob_path, b.blob_path);
    assert_ne!(a.pointer_path, b.pointer_path);
    assert_eq!(a.link_target, Some("../../blobs/same".to_string()));
    assert_eq!(b.link_target, Some("../../blobs/same".to_string()));
}

#[test]
fn temp_path_is_a_random_name_under_tmp() {
    let path = cache().temp_path();
    let prefix = "/home/u/.cache/huggingface/hub/tmp/";
    assert!(path.starts_with(prefix));
    let name = &path[prefix.len()..];
    assert_eq!(name.chars().count(), 7);
    assert!(name.chars().all(|c| c.is_ascii_alphanumeric()));
}

#[test]
fn temp_paths_differ_from_call_to_call() {
    let c = cache();
    let names: Vec<String> = (0..8).map(|_| c.temp_path()).collect();
    assert!(names.iter().any(|n| *n != names[0]));
}

#[test]
fn temp_path_named_uses_the_name() {
    assert_eq!(cache().temp_path_named("aB3dE6g"), "/home/u/.cache/huggingface/hub/tmp/aB3dE6g");
}

#[test]
fn an_existing_destination_is_left_untouched() {
    assert_eq!(
        symlink_or_rename("/c/blobs/e", "/c/snapshots/h/f", LinkEvent::Begin { exists: true }),
        LinkAction::Done
    );
}

#[test]
fn a_missing_destination_is_linked_by_a_relative_path() {
    assert_eq!(
        symlink_or_rename("/c/blobs/e", "/c/snapshots/h/f", LinkEvent::Begin { exists: false }),
        LinkAction::Link { target: "../../blobs/e".to_string(), at: "/c/snapshots/h/f".to_string() }
    );
}

#[test]
fn a_failed_link_falls_back_to_moving_the_blob() {
    assert_eq!(
        symlink_or_rename("/c/blobs/e", "/c/snapshots/h/f", LinkEvent::LinkFailed),
        LinkAction::Move { from: "/c/blobs/e".to_string(), to: "/c/snapshots/h/f".to_string() }
    );
}

#[test]
fn unlike_paths_are_moved_at_once() {
    assert_eq!(
        symlink_or_rename("/c/blobs/e", "snapshots/h/f", LinkEvent::Begin { exists: false }),
        LinkAction::Move { from: "/c/blobs/e".to_string(), to: "snapshots/h/f".to_string() }
    );
}

#[test]
fn fetched_content_is_moved_to_its_blob() {
    let view = cache().model("gpt2".to_string());
    let plan = view.finalize_plan(&meta("abc123", "deadbeef", 10), "model.safetensors", false);
    let base = "/home/u/.cache/huggingface/hub/models--gpt2";
    assert!(plan.fetch);
    assert_eq!(
        plan.blob_steps("/home/u/.cache/huggingface/hub/tmp/aB3dE6g"),
        vec![
            FinalizeStep::MakeDir { path: Some(format!("{}/blobs", base)), must: true },
            FinalizeStep::MoveFile {
                from: "/home/u/.cache/huggingface/hub/tmp/aB3dE6g".to_string(),
                to: format!("{}/blobs/abc123", base),
            },
        ]
    );
}

#[test]
fn a_blob_that_is_there_is_neither_fetched_nor_written() {
    let view = cache().model("gpt2".to_string());
    let plan = view.finalize_plan(&meta("abc123", "deadbeef", 10), "model.safetensors", true);
    assert!(!plan.fetch);
    assert_eq!(plan.blob_steps("/home/u/.cache/huggingface/hub/tmp/aB3dE6g"), vec![]);
    assert_eq!(plan.blob_path, "/home/u/.cache/huggingface/hub/models--gpt2/blobs/abc123");
    assert_eq!(plan.link_target, Some("../../blobs/abc123".to_string()));
    assert_eq!(plan.pointer_steps().len(), 4);
}

#[test]
fn the_pointer_and_the_reference_are_written_in_order() {
    let view = cache().model("gpt2".to_string());
    let base = "/home/u/.cache/huggingface/hub/models--gpt2";
    for blob_exists in [false, true] {
        let plan = view.finalize_plan(&meta("abc123", "deadbeef", 10), "model.safetensors", blob_exists);
        assert_eq!(
            plan.pointer_steps(),
            vec![
                FinalizeStep::MakeDir { path: Some(format!("{}/snapshots/deadbeef", base)), must: false },
                FinalizeStep::PlacePointer {
                    blob: format!("{}/blobs/abc123", base),
                    pointer: format!("{}/snapshots/deadbeef/model.safetensors", base),
                },
                FinalizeStep::MakeDir { path: Some(format!("{}/refs", base)), must: true },
                FinalizeStep::WriteRef { file: format!("{}/refs/main", base), content: "deadbeef".to_string() },
            ]
        );
    }
}

#[test]
fn a_second_name_for_content_that_is_there_adds_a_pointer_only() {
    let view = cache().model("gpt2".to_string());
    let first = view.finalize_plan(&meta("same", "deadbeef", 10), "a.bin", false);
    let second = view.finalize_plan(&meta("same", "deadbeef", 10), "b.bin", true);
    assert_eq!(first.blob_steps("t").len(), 2);
    assert_eq!(second.blob_steps("t").len(), 0);
    assert_eq!(first.blob_path, second.blob_path);
    assert_ne!(first.pointer_path, second.pointer_path);
}

#[test]
fn lookup_finds_what_exists_under_the_recorded_commit() {
    let view = cache().model("gpt2".to_string());
    assert_eq!(
        view.lookup(Some("deadbeef"), "model.safetensors", true),
        Some("/home/u/.cache/huggingface/hub/models--gpt2/snapshots/deadbeef/model.safetensors".to_string())
    );
    assert_eq!(view.lookup(Some("deadbeef"), "model.safetensors", true), view.get(Some("deadbeef"), "model.safetensors"));
}

#[test]
fn lookup_of_what_does_not_exist_is_not_cached() {
    let view = cache().model("gpt2".to_string());
    assert_eq!(view.lookup(Some("deadbeef"), "model.safetensors", false), None);
    assert_eq!(view.lookup(None, "model.safetensors", false), None);
    assert_eq!(view.lookup(None, "model.safetensors", true), None);
}

#[test]
fn lookup_twice_returns_the_same_path() {
    let view = cache().model("gpt2".to_string());
    let first = view.lookup(Some("deadbeef"), "data/a.bin", true);
    let second = view.lookup(Some("deadbeef"), "data/a.bin", true);
    assert!(first.is_some());
    assert_eq!(first, second);
}
