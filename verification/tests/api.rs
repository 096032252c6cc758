use libhfd::api::valid_header_value;
use libhfd::api::Api;
use libhfd::api::ApiBuilder;
use libhfd::api::RepoInfo;
use libhfd::api::Siblings;
use libhfd::cache::Cache;
use libhfd::chunks::ChunkTask;
use libhfd::error::ApiError;
use libhfd::repo::Repo;
use libhfd::repo::RepoType;
use libhfd::resolve::Metadata;
use libhfd::retry::RetryPolicy;

fn builder() -> ApiBuilder {
    ApiBuilder::from_cache(Cache::new("/c/hub".to_string()), None)
}

fn api() -> Api {
    builder().build().unwrap()
}

#[test]
fn file_names_lists_the_siblings_in_order() {
    let info = RepoInfo {
        siblings: vec![
            Siblings { rfilename: "README.md".to_string() },
            Siblings { rfilename: "data/000001.parquet".to_string() },
            Siblings { rfilename: "model.safetensors".to_string() },
        ],
        sha: "deadbeef".to_string(),
    };
    assert_eq!(info.file_names(), vec!["README.md", "data/000001.parquet", "model.safetensors"]);
    let empty = RepoInfo { siblings: vec![], sha: "deadbeef".to_string() };
    assert_eq!(empty.file_names(), Vec::<String>::new());
}

#[test]
fn header_values_hold_visible_text_and_tabs() {
    assert!(valid_header_value("Bearer hf_abc"));
    assert!(valid_header_value(""));
    assert!(valid_header_value("a\tb"));
    assert!(valid_header_value("~"));
}

#[test]
fn header_values_hold_no_control_characters() {
    assert!(!valid_header_value("a\nb"));
    assert!(!valid_header_value("a\rb"));
    assert!(!valid_header_value("\u{0}"));
    assert!(!valid_header_value("\u{1f}"));
    assert!(!valid_header_value("a\u{7f}"));
}

#[test]
fn header_values_may_hold_characters_beyond_ascii() {
    assert!(valid_header_value("é"));
    assert!(valid_header_value("\u{80}"));
    assert!(valid_header_value("日本"));
}

#[test]
fn a_builder_starts_with_the_defaults() {
    let api = api();
    assert!(api.max_files() >= 1);
    assert!(api.progress());
    assert_eq!(api.retry_policy(), RetryPolicy { parallel_failures: 0, max_retries: 0 });
    assert_eq!(api.request_headers().user_agent, "unkown/None; libhfd/0.1.0; rust/unknown");
    assert_eq!(api.request_headers().authorization, None);
}

#[test]
fn the_token_file_gives_the_token() {
    let api = ApiBuilder::from_cache(Cache::new("/c/hub".to_string()), Some("hf_abc\n")).build().unwrap();
    assert_eq!(api.request_headers().authorization, Some("Bearer hf_abc".to_string()));
    let api = ApiBuilder::from_cache(Cache::new("/c/hub".to_string()), Some("  \n")).build().unwrap();
    assert_eq!(api.request_headers().authorization, None);
}

#[test]
fn with_token_replaces_the_token() {
    let api = builder().with_token(Some("hf_xyz".to_string())).build().unwrap();
    assert_eq!(api.request_headers().authorization, Some("Bearer hf_xyz".to_string()));
    let api = ApiBuilder::from_cache(Cache::new("/c/hub".to_string()), Some("hf_abc"))
        .with_token(None)
        .build()
        .unwrap();
    assert_eq!(api.request_headers().authorization, None);
}

#[test]
fn a_token_that_cannot_be_sent_fails_the_build() {
    let err = builder().with_token(Some("hf\nabc".to_string())).build().unwrap_err();
    assert_eq!(err, ApiError::InvalidHeaderValue("failed to parse header value".to_string()));
    let err = builder().with_token(Some("hf\nabc".to_string())).build_headers().unwrap_err();
    assert_eq!(err.message(), "Invalid header value failed to parse header value");
}

#[test]
fn build_headers_names_agent_and_bearer() {
    let headers = builder().with_token(Some("t".to_string())).build_headers().unwrap();
    assert_eq!(headers.user_agent, "unkown/None; libhfd/0.1.0; rust/unknown");
    assert_eq!(headers.authorization, Some("Bearer t".to_string()));
    assert_eq!(headers.clone(), headers);
}

#[test]
fn with_progress_and_retries_are_kept() {
    let api = builder().with_progress(false).with_parallel_failures(2).with_max_retries(7).build().unwrap();
    assert!(!api.progress());
    assert_eq!(api.retry_policy(), RetryPolicy { parallel_failures: 2, max_retries: 7 });
}

#[test]
fn with_cache_dir_moves_the_cache() {
    let api = builder().with_cache_dir("/elsewhere".to_string()).build().unwrap();
    let plan = api.model("gpt2".to_string()).download(
        &Metadata { commit_hash: "c".to_string(), etag: "e".to_string(), size: 1 },
        "f",
        false,
    );
    assert_eq!(plan.blob_path, "/elsewhere/models--gpt2/blobs/e");
}

#[test]
fn new_reads_the_settings_it_is_given() {
    let b = ApiBuilder::new(Some("/data/hf"), None, Some("hf_abc")).unwrap();
    let api = b.build().unwrap();
    assert_eq!(api.request_headers().authorization, Some("Bearer hf_abc".to_string()));
    assert_eq!(
        api.model("gpt2".to_string()).cache().path(),
        "/data/hf/hub/models--gpt2"
    );
    assert!(ApiBuilder::new(None, None, None).is_none());
    assert!(Api::new(None, None, None).is_none());
    let api = Api::new(None, Some("/home/u"), None).unwrap().unwrap();
    assert_eq!(
        api.dataset("o/n".to_string()).cache().path(),
        "/home/u/.cache/huggingface/hub/datasets--o--n"
    );
}

#[test]
fn url_fills_the_pattern() {
    assert_eq!(
        api().model("gpt2".to_string()).url("model.safetensors"),
        "https://huggingface.co/gpt2/resolve/main/model.safetensors"
    );
    assert_eq!(
        api().dataset("OpenVideo/pexels-raw".to_string()).url("data/000001.parquet"),
        "https://huggingface.co/datasets/OpenVideo/pexels-raw/resolve/main/data/000001.parquet"
    );
    assert_eq!(
        api().space("o/n".to_string()).url("app.py"),
        "https://huggingface.co/spaces/o/n/resolve/main/app.py"
    );
}

#[test]
fn url_escapes_the_revision() {
    let repo = Repo::with_revision("gpt2".to_string(), RepoType::Model, "refs/pr/1".to_string());
    assert_eq!(
        api().repo(repo).url("config.json"),
        "https://huggingface.co/gpt2/resolve/refs%2Fpr%2F1/config.json"
    );
}

#[test]
fn url_replaces_in_what_was_replaced_before() {
    assert_eq!(
        api().model("{filename}".to_string()).url("x"),
        "https://huggingface.co/x/resolve/main/x"
    );
}

#[test]
fn info_url_names_the_api() {
    assert_eq!(
        api().model("gpt2".to_string()).info_url(),
        "https://huggingface.co/api/models/gpt2/revision/main"
    );
}

#[test]
fn get_names_the_cached_place() {
    let handle = api().model("gpt2".to_string());
    assert_eq!(handle.get(None, "f"), None);
    assert_eq!(
        handle.get(Some("deadbeef"), "f"),
        Some("/c/hub/models--gpt2/snapshots/deadbeef/f".to_string())
    );
}

#[test]
fn download_tempfile_plans_the_chunks() {
    let plan = api().model("gpt2".to_string()).download_tempfile(25_000_000);
    assert!(plan.filename.starts_with("/c/hub/tmp/"));
    assert_eq!(plan.filename.len(), "/c/hub/tmp/".len() + 7);
    assert_eq!(plan.length, 25_000_000);
    assert_eq!(
        plan.tasks,
        vec![
            ChunkTask { byte_start: 0, byte_end_inclusive: 9_999_999 },
            ChunkTask { byte_start: 10_000_000, byte_end_inclusive: 19_999_999 },
            ChunkTask { byte_start: 20_000_000, byte_end_inclusive: 24_999_999 },
        ]
    );
    assert!(plan.max_files >= 1);
    assert_eq!(plan.policy, RetryPolicy { parallel_failures: 0, max_retries: 0 });
}

#[test]
fn download_tempfile_of_an_empty_file_has_no_task() {
    let plan = api().model("gpt2".to_string()).download_tempfile(0);
    assert_eq!(plan.length, 0);
    assert_eq!(plan.tasks, vec![]);
}

#[test]
fn download_names_the_place_of_the_file() {
    let plan = api().model("gpt2".to_string()).download(
        &Metadata { commit_hash: "deadbeef\n".to_string(), etag: "abc".to_string(), size: 3 },
        "model.safetensors",
        false,
    );
    assert!(plan.fetch);
    assert_eq!(plan.blob_path, "/c/hub/models--gpt2/blobs/abc");
    assert_eq!(plan.pointer_path, "/c/hub/models--gpt2/snapshots/deadbeef\n/model.safetensors");
    assert_eq!(plan.reference.content, "deadbeef");
}

#[test]
fn with_endpoint_asks_a_mirror() {
    let api = builder().with_endpoint("https://hf-mirror.com").build().unwrap();
    assert_eq!(
        api.dataset("o/n".to_string()).url("f"),
        "https://hf-mirror.com/datasets/o/n/resolve/main/f"
    );
    assert_eq!(
        api.model("gpt2".to_string()).info_url(),
        "https://hf-mirror.com/api/models/gpt2/revision/main"
    );
}

#[test]
fn with_chunk_size_and_max_files_shape_the_plan() {
    let api = builder().with_chunk_size(4).with_max_files(3).build().unwrap();
    assert_eq!(api.max_files(), 3);
    let plan = api.model("gpt2".to_string()).download_tempfile(10);
    assert_eq!(plan.max_files, 3);
    assert_eq!(
        plan.tasks,
        vec![
            ChunkTask { byte_start: 0, byte_end_inclusive: 3 },
            ChunkTask { byte_start: 4, byte_end_inclusive: 7 },
            ChunkTask { byte_start: 8, byte_end_inclusive: 9 },
        ]
    );
}

#[test]
fn new_fails_on_a_token_file_that_cannot_be_sent() {
    let err = Api::new(Some("/data"), None, Some("a\u{7f}b")).unwrap().unwrap_err();
    assert_eq!(err, ApiError::InvalidHeaderValue("failed to parse header value".to_string()));
}

#[test]
fn header_values_go_by_each_character() {
    for code in 0u32..0x900 {
        let c = char::from_u32(code).unwrap();
        let expected = (code >= 32 && code != 127) || code == 9;
        assert_eq!(valid_header_value(&c.to_string()), expected, "{:#x}", code);
        assert_eq!(valid_header_value(&format!("a{}b", c)), expected, "{:#x}", code);
    }
}

#[test]
fn download_of_content_that_is_there_fetches_nothing() {
    let plan = api().model("gpt2".to_string()).download(
        &Metadata { commit_hash: "deadbeef".to_string(), etag: "abc".to_string(), size: 3 },
        "model.safetensors",
        true,
    );
    assert!(!plan.fetch);
    assert_eq!(plan.blob_steps("/c/hub/tmp/aB3dE6g"), vec![]);
    assert_eq!(plan.pointer_path, "/c/hub/models--gpt2/snapshots/deadbeef/model.safetensors");
}

#[test]
fn lookup_goes_by_reference_and_existence() {
    let handle = api().model("gpt2".to_string());
    assert_eq!(
        handle.lookup(Some("deadbeef"), "f", true),
        Some("/c/hub/models--gpt2/snapshots/deadbeef/f".to_string())
    );
    assert_eq!(handle.lookup(Some("deadbeef"), "f", false), None);
    assert_eq!(handle.lookup(None, "f", true), None);
}
