use rugs::models::{BadgeResult, GetMetadataResponseV2, Metrics, UgsUserVote};
use rugs::paths::{find_starting_at, normalize_project_name, normalize_stream, split_project_path,
    str_eq};
use rugs::AppError;

#[test]
fn split_valid_paths() {
    assert_eq!(
        split_project_path("//depot/stream/proj"),
        Some((String::from("//depot/stream"), String::from("proj")))
    );
    assert_eq!(
        split_project_path("//Depot/Stream/Proj"),
        Some((String::from("//depot/stream"), String::from("proj")))
    );
    // The project name is everything after the stream half.
    assert_eq!(
        split_project_path("//depot/stream/dir/proj"),
        Some((String::from("//depot/stream"), String::from("dir/proj")))
    );
    // Unusual characters in the stream half are kept.
    assert_eq!(
        split_project_path("//depot/stream;/proj"),
        Some((String::from("//depot/stream;"), String::from("proj")))
    );
}

#[test]
fn split_invalid_paths() {
    assert_eq!(split_project_path("not-a-path"), None);
    assert_eq!(split_project_path("//onlystream"), None);
    assert_eq!(split_project_path("//stream/"), None);
    assert_eq!(split_project_path(""), None);
    assert_eq!(split_project_path("/depot/stream/proj"), None);
    assert_eq!(split_project_path("//"), None);
}

#[test]
fn normalize_stream_strips_and_folds() {
    assert_eq!(normalize_stream("//Depot/Stream/"), "//depot/stream");
    assert_eq!(normalize_stream("//depot/stream"), "//depot/stream");
    assert_eq!(normalize_stream("/"), "");
    assert_eq!(normalize_stream(""), "");
    // Only one trailing slash is stripped.
    assert_eq!(normalize_stream("//depot//"), "//depot/");
}

#[test]
fn normalize_project_name_folds_case() {
    assert_eq!(normalize_project_name("ABC"), "abc");
    assert_eq!(normalize_project_name("MiXeD09"), "mixed09");
    assert_eq!(normalize_project_name(""), "");
}

#[test]
fn find_starting_at_counts_characters() {
    assert_eq!(find_starting_at("//a/b", '/', 2), Some(3));
    assert_eq!(find_starting_at("//a/b", '/', 4), None);
    assert_eq!(find_starting_at("//a/b", '/', 0), Some(0));
    assert_eq!(find_starting_at("abc", 'z', 0), None);
    assert_eq!(find_starting_at("abc", 'a', 99), None);
}

#[test]
fn str_eq_compares_characters() {
    assert!(str_eq("", ""));
    assert!(str_eq("abc", "abc"));
    assert!(!str_eq("abc", "abd"));
    assert!(!str_eq("abc", "ab"));
}

#[test]
fn record_matches_by_path_and_change() {
    let rec = GetMetadataResponseV2 {
        change: 7,
        project: String::from("//d/s/p"),
        users: Vec::new(),
        badges: Vec::new(),
    };
    assert!(rec.matches("//d/s/p", 7));
    assert!(!rec.matches("//d/s/p", 8));
    assert!(!rec.matches("//d/s/q", 7));
}

#[test]
fn badge_result_codes_are_wire_stable() {
    let all = [
        (BadgeResult::Starting, 0u8),
        (BadgeResult::Failure, 1),
        (BadgeResult::Warning, 2),
        (BadgeResult::Success, 3),
        (BadgeResult::Skipped, 4),
    ];
    for (value, code) in all {
        assert_eq!(value.code(), code);
        assert_eq!(BadgeResult::from_code(code), Ok(value));
    }
    assert_eq!(BadgeResult::from_code(5), Err(AppError::StorageError));
    assert_eq!(BadgeResult::from_code(255), Err(AppError::StorageError));
}

#[test]
fn vote_codes_are_wire_stable() {
    let all = [
        (UgsUserVote::NoVote, 0u8),
        (UgsUserVote::CompileSuccess, 1),
        (UgsUserVote::CompileFailure, 2),
        (UgsUserVote::Good, 3),
        (UgsUserVote::Bad, 4),
    ];
    for (value, code) in all {
        assert_eq!(value.code(), code);
        assert_eq!(UgsUserVote::from_code(code), Ok(value));
    }
    assert_eq!(UgsUserVote::from_code(5), Err(AppError::StorageError));
}

#[test]
fn metrics_start_at_zero() {
    let m = Metrics::default();
    assert_eq!(m.latest_requests, 0);
    assert_eq!(m.build_create_requests, 0);
    assert_eq!(m.metadata_index_requests, 0);
    assert_eq!(m.metadata_submit_requests, 0);
}
