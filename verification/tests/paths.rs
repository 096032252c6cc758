use libhfd::paths::absolute;
use libhfd::paths::components_of;
use libhfd::paths::join_names;
use libhfd::paths::join_path;
use libhfd::paths::link_target;
use libhfd::paths::make_relative;
use libhfd::paths::parent_path;

#[test]
fn join_path_puts_a_separator_between() {
    assert_eq!(join_path("/cache", "blobs"), "/cache/blobs");
    assert_eq!(join_path("cache", "a/b"), "cache/a/b");
}

#[test]
fn join_path_adds_no_second_separator() {
    assert_eq!(join_path("/cache/", "blobs"), "/cache/blobs");
    assert_eq!(join_path("/", "blobs"), "/blobs");
}

#[test]
fn join_path_onto_nothing_is_the_segment() {
    assert_eq!(join_path("", "blobs"), "blobs");
}

#[test]
fn join_path_with_an_absolute_segment_replaces_the_base() {
    assert_eq!(join_path("/cache", "/etc/passwd"), "/etc/passwd");
}

#[test]
fn join_path_with_an_empty_segment_ends_in_a_separator() {
    assert_eq!(join_path("/cache", ""), "/cache/");
    assert_eq!(join_path("", ""), "");
}

#[test]
fn join_path_agrees_with_the_standard_library_on_unix() {
    for base in ["", "/", "a", "/a", "a/", "/a/b", "."] {
        for seg in ["", "x", "x/y", "/x", ".", ".."] {
            let mut p = std::path::PathBuf::from(base);
            p.push(seg);
            if std::path::MAIN_SEPARATOR == '/' {
                assert_eq!(join_path(base, seg), p.to_str().unwrap());
            }
        }
    }
}

#[test]
fn absolute_paths_begin_at_the_root() {
    assert!(absolute("/"));
    assert!(absolute("/a"));
    assert!(!absolute(""));
    assert!(!absolute("a/"));
    assert!(!absolute("./a"));
}

#[test]
fn components_skip_empty_and_inner_dot_pieces() {
    assert_eq!(components_of("/a/b"), vec!["/", "a", "b"]);
    assert_eq!(components_of("a//b/"), vec!["a", "b"]);
    assert_eq!(components_of("a/./b"), vec!["a", "b"]);
    assert_eq!(components_of("./a"), vec![".", "a"]);
    assert_eq!(components_of("/./a"), vec!["/", "a"]);
    assert_eq!(components_of("../a"), vec!["..", "a"]);
    assert_eq!(components_of("/"), vec!["/"]);
    assert_eq!(components_of(""), Vec::<String>::new());
}

#[test]
fn components_agree_with_the_standard_library_on_unix() {
    if std::path::MAIN_SEPARATOR != '/' {
        return;
    }
    for p in ["", "/", "a", "/a/b", "a//b/", "a/./b", "./a", "/./a", "../a", "a/..", ".", "./", "a/b/."] {
        let expected: Vec<String> = std::path::Path::new(p)
            .components()
            .map(|c| c.as_os_str().to_str().unwrap().to_string())
            .collect();
        assert_eq!(components_of(p), expected, "{}", p);
    }
}

#[test]
fn join_names_writes_separators_between() {
    assert_eq!(join_names(&vec![]), "");
    assert_eq!(join_names(&vec!["a".to_string()]), "a");
    assert_eq!(join_names(&vec!["..".to_string(), "blobs".to_string(), "e".to_string()]), "../blobs/e");
}

#[test]
fn parent_path_drops_the_last_name() {
    assert_eq!(parent_path("/home/u/.cache/huggingface/hub"), Some("/home/u/.cache/huggingface".to_string()));
    assert_eq!(parent_path("/a"), Some("/".to_string()));
    assert_eq!(parent_path("a"), Some("".to_string()));
    assert_eq!(parent_path("a/b/"), Some("a".to_string()));
    assert_eq!(parent_path("./a"), Some(".".to_string()));
    assert_eq!(parent_path("a/b/c.txt"), Some("a/b".to_string()));
}

#[test]
fn parent_path_of_root_or_nothing_is_none() {
    assert_eq!(parent_path("/"), None);
    assert_eq!(parent_path(""), None);
    assert_eq!(parent_path("//"), None);
}

#[test]
fn parent_path_agrees_with_the_standard_library_on_plain_paths() {
    if std::path::MAIN_SEPARATOR != '/' {
        return;
    }
    for p in ["", "/", "a", "/a", "/a/b", "a/b", "a/b/", "./a", "../a", "/a/b/c.d"] {
        let expected = std::path::Path::new(p).parent().map(|q| q.to_str().unwrap().to_string());
        assert_eq!(parent_path(p), expected, "{}", p);
    }
}

#[test]
fn make_relative_leads_from_a_pointer_to_its_blob() {
    assert_eq!(
        make_relative(
            "/c/models--gpt2/blobs/abc",
            "/c/models--gpt2/snapshots/deadbeef/model.safetensors"
        ),
        "../../blobs/abc"
    );
}

#[test]
fn make_relative_climbs_once_more_for_a_nested_file() {
    assert_eq!(
        make_relative(
            "/c/datasets--o--n/blobs/abc",
            "/c/datasets--o--n/snapshots/deadbeef/data/000001.parquet"
        ),
        "../../../blobs/abc"
    );
}

#[test]
fn make_relative_between_relative_paths() {
    assert_eq!(make_relative("hub/blobs/e", "hub/snapshots/c/f"), "../../blobs/e");
    assert_eq!(make_relative("a/b", "a/c"), "b");
    assert_eq!(make_relative("a", "b"), "a");
}

#[test]
fn make_relative_of_a_path_to_itself_is_empty() {
    assert_eq!(make_relative("/a/b", "/a/b"), "");
}

#[test]
fn make_relative_below_the_destination() {
    assert_eq!(make_relative("/a/b/c", "/a/b"), "c");
    assert_eq!(make_relative("/a", "/a/b/c"), "..");
    assert_eq!(make_relative("/a", "/a/b/c/d"), "../..");
}

#[test]
fn link_target_needs_both_paths_of_one_sort() {
    assert_eq!(link_target("/a/blobs/e", "/a/snapshots/c/f"), Some("../../blobs/e".to_string()));
    assert_eq!(link_target("/a/blobs/e", "a/snapshots/c/f"), None);
    assert_eq!(link_target("a/blobs/e", "/a/snapshots/c/f"), None);
}
