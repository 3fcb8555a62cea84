use rugs::models::{BadgeResult, CreateBadge, MetadataIndexParams, UpdateMetadataRequestV2};
use rugs::store::MetadataStore;
use rugs::AppError;

fn badge(project: &str, change: i64, build_type: &str, result: BadgeResult) -> CreateBadge {
    CreateBadge {
        change_number: change,
        build_type: String::from(build_type),
        result,
        url: String::from("http://test.com"),
        project: String::from(project),
    }
}

fn query_params(stream: &str, project: Option<&str>, minchange: i64) -> MetadataIndexParams {
    MetadataIndexParams {
        stream: String::from(stream),
        project: project.map(String::from),
        minchange,
        maxchange: None,
        sequence: Some(0),
    }
}

fn event(stream: &str, project: &str, user: &str, change: i64) -> UpdateMetadataRequestV2 {
    UpdateMetadataRequestV2 {
        change,
        stream: String::from(stream),
        project: Some(String::from(project)),
        user_name: String::from(user),
        synced: None,
        vote: None,
        investigating: None,
        starred: None,
        comment: None,
    }
}

/// Submitting badges for two changelists folds them into one aggregate
/// record per changelist, with every badge entry present.
#[test]
fn metadata_integration() {
    const STREAM: &str = "//depot/stream;";
    const PROJECT_NAME: &str = "proj";
    let path = format!("{STREAM}/{PROJECT_NAME}");

    let mut store = MetadataStore::new(1);

    let empty = store.metadata_query(&query_params(STREAM, Some(PROJECT_NAME), 0));
    assert_eq!(empty.items.len(), 0);
    let old_sequence_number = empty.sequence_number;
    assert_eq!(old_sequence_number, 0);

    let creates = [
        badge(&path, 1, "Editor", BadgeResult::Starting),
        badge(&path, 1, "Standalone", BadgeResult::Starting),
        badge(&path, 1, "Editor", BadgeResult::Success),
        badge(&path, 2, "Editor", BadgeResult::Starting),
    ];
    for (i, create) in creates.into_iter().enumerate() {
        let r = store.submit_badge(create, 1_000 + i as i64);
        assert!(r.is_ok());
    }

    let response = store.metadata_query(&query_params(STREAM, Some(PROJECT_NAME), 0));
    assert!(response.sequence_number > old_sequence_number);
    assert_eq!(response.items.len(), 2);

    let cl1_item = response.items.iter().find(|item| item.change == 1);
    assert!(cl1_item.is_some());
    let cl1_item = cl1_item.unwrap();
    assert_eq!(cl1_item.badges.len(), 3);
    // The sub-list keeps write order.
    assert_eq!(cl1_item.badges[0].name, "Editor");
    assert_eq!(cl1_item.badges[0].state, BadgeResult::Starting);
    assert_eq!(cl1_item.badges[1].name, "Standalone");
    assert_eq!(cl1_item.badges[2].name, "Editor");
    assert_eq!(cl1_item.badges[2].state, BadgeResult::Success);

    let cl2_item = response.items.iter().find(|item| item.change == 2);
    assert!(cl2_item.is_some());
    assert_eq!(cl2_item.unwrap().badges.len(), 1);
}

/// Submissions under case variants of one (stream, project) land in the same
/// project, and queries under case variants answer identically.
#[test]
fn project_case_insensitivity() {
    let mut store = MetadataStore::new(1);

    let creates = [
        badge("//depot/Stream/proj", 1, "Editor", BadgeResult::Starting),
        badge("//depot/stream/Proj", 1, "Standalone", BadgeResult::Starting),
    ];
    for create in creates {
        assert!(store.submit_badge(create, 7).is_ok());
    }

    let first_response = store.metadata_query(&query_params("//depot/Stream", Some("proj"), 0));
    assert_eq!(first_response.items.len(), 1);
    let cl1_item = &first_response.items[0];
    assert_eq!(cl1_item.badges.len(), 2, "both badges should be under the same project");

    let response = store.metadata_query(&query_params("//depot/stream", Some("Proj"), 0));
    assert_eq!(
        first_response.items, response.items,
        "results should be identical even if we use a different case for project"
    );
}

/// A full re-query (cursor zero, no change filter) returns every badge and
/// every user-event's latest merged state, sub-lists in write order.
#[test]
fn full_query_returns_every_write() {
    let mut store = MetadataStore::new(1);
    assert!(store.submit_badge(badge("//d/s/p", 5, "Editor", BadgeResult::Starting), 10).is_ok());
    let mut ev = event("//d/s", "p", "alice", 5);
    ev.vote = Some(rugs::models::UgsUserVote::Good);
    store.submit_user_event(ev, 11);
    assert!(store.submit_badge(badge("//d/s/p", 5, "Editor", BadgeResult::Success), 12).is_ok());
    assert!(store.submit_badge(badge("//d/s/p", 6, "Standalone", BadgeResult::Failure), 13).is_ok());
    let mut ev2 = event("//d/s", "p", "alice", 5);
    ev2.comment = Some(String::from("looks good"));
    store.submit_user_event(ev2, 14);

    let resp = store.metadata_query(&query_params("//d/s", None, 0));
    assert_eq!(resp.items.len(), 2);

    let cl5 = resp.items.iter().find(|i| i.change == 5).unwrap();
    assert_eq!(cl5.project, "//d/s/p");
    assert_eq!(cl5.badges.len(), 2);
    assert_eq!(cl5.badges[0].state, BadgeResult::Starting);
    assert_eq!(cl5.badges[1].state, BadgeResult::Success);
    // One user entry: the latest merged state, not one entry per submission.
    assert_eq!(cl5.users.len(), 1);
    assert_eq!(cl5.users[0].user, "alice");
    assert_eq!(cl5.users[0].vote, Some(rugs::models::UgsUserVote::Good));
    assert_eq!(cl5.users[0].comment, Some(String::from("looks good")));

    let cl6 = resp.items.iter().find(|i| i.change == 6).unwrap();
    assert_eq!(cl6.badges.len(), 1);
    assert_eq!(cl6.users.len(), 0);
}

/// A changelist with only user events still gets a record, with an empty
/// badge list.
#[test]
fn user_only_changelist_gets_record() {
    let mut store = MetadataStore::new(1);
    store.submit_user_event(event("//d/s", "p", "erin", 77), 5);

    let resp = store.metadata_query(&query_params("//d/s", None, 0));
    assert_eq!(resp.items.len(), 1);
    assert_eq!(resp.items[0].change, 77);
    assert_eq!(resp.items[0].badges.len(), 0);
    assert_eq!(resp.items[0].users.len(), 1);
    assert_eq!(resp.sequence_number, 1);
}

/// A submitted badge is returned exactly once by a query whose lower change
/// bound is its changelist.
#[test]
fn badge_round_trip() {
    let mut store = MetadataStore::new(1);
    assert!(store.submit_badge(badge("//d/s/p", 41, "Editor", BadgeResult::Warning), 1).is_ok());
    assert!(store.submit_badge(badge("//d/s/p", 42, "Editor", BadgeResult::Skipped), 2).is_ok());

    let resp = store.metadata_query(&query_params("//d/s", None, 42));
    assert_eq!(resp.items.len(), 1);
    let rec = &resp.items[0];
    assert!(rec.matches("//d/s/p", 42));
    assert_eq!(rec.badges.len(), 1);
    assert_eq!(rec.badges[0].state, BadgeResult::Skipped);
}

/// A second submission that only sets the comment keeps the first
/// submission's vote, starred and investigating flags.
#[test]
fn merge_preserves_unset_fields() {
    let mut store = MetadataStore::new(1);
    let mut first = event("//d/s", "p", "bob", 9);
    first.vote = Some(rugs::models::UgsUserVote::Bad);
    first.starred = Some(true);
    first.investigating = Some(false);
    store.submit_user_event(first, 100);

    let mut second = event("//d/s", "p", "bob", 9);
    second.comment = Some(String::from("still broken"));
    store.submit_user_event(second, 200);

    let resp = store.metadata_query(&query_params("//d/s", Some("p"), 0));
    assert_eq!(resp.items.len(), 1);
    assert_eq!(resp.items[0].users.len(), 1);
    let u = &resp.items[0].users[0];
    assert_eq!(u.user, "bob");
    assert_eq!(u.vote, Some(rugs::models::UgsUserVote::Bad));
    assert_eq!(u.starred, Some(true));
    assert_eq!(u.investigating, Some(false));
    assert_eq!(u.comment, Some(String::from("still broken")));
}

/// `synced = true` stamps the sync time, reported in tenths of a
/// microsecond.
#[test]
fn synced_sets_sync_time() {
    let mut store = MetadataStore::new(1);
    let mut ev = event("//d/s", "p", "carol", 3);
    ev.synced = Some(true);
    store.submit_user_event(ev, 1_000);

    let resp = store.metadata_query(&query_params("//d/s", Some("p"), 0));
    assert_eq!(resp.items[0].users[0].sync_time, Some(10_000));
}

/// The cursor of a full query dominates every write, and re-querying with it
/// returns nothing until a new write occurs.
#[test]
fn cursor_monotonic() {
    let mut store = MetadataStore::new(1);
    for i in 0..5 {
        assert!(store.submit_badge(badge("//d/s/p", i, "Editor", BadgeResult::Starting), i).is_ok());
    }
    // Sequence numbers 1..=5 were allocated.
    let resp = store.metadata_query(&query_params("//d/s", None, 0));
    assert!(resp.sequence_number >= 5);

    let mut follow_up = query_params("//d/s", None, 0);
    follow_up.sequence = Some(resp.sequence_number);
    let resp2 = store.metadata_query(&follow_up);
    assert_eq!(resp2.items.len(), 0);
    assert_eq!(resp2.sequence_number, 0);

    assert!(store.submit_badge(badge("//d/s/p", 9, "Editor", BadgeResult::Success), 9).is_ok());
    let resp3 = store.metadata_query(&follow_up);
    assert_eq!(resp3.items.len(), 1);
    assert_eq!(resp3.items[0].change, 9);
    assert!(resp3.sequence_number > resp.sequence_number);
}

/// Malformed project paths are rejected with `InvalidProjectPath` and leave
/// no project, badge or user-event row behind.
#[test]
fn invalid_project_path_rejected() {
    let mut store = MetadataStore::new(1);
    for bad in ["not-a-path", "//onlystream", "//stream/"] {
        let r = store.submit_badge(badge(bad, 1, "Editor", BadgeResult::Starting), 1);
        assert_eq!(r, Err(AppError::InvalidProjectPath));
        assert!(r.unwrap_err().is_invalid_project_path());
    }
    // Nothing was created: no project resolves and a catch-all query on the
    // streams involved returns nothing.
    assert_eq!(store.get_project("//onlystream", ""), None);
    assert_eq!(store.get_project("//stream", ""), None);
    let resp = store.metadata_query(&query_params("//stream", None, 0));
    assert_eq!(resp.items.len(), 0);
    assert_eq!(resp.sequence_number, 0);
}

/// The latest-sequence query reports the largest badge and event sequence
/// numbers of one project, zeroes for an unknown project, and rejects a
/// malformed path.
#[test]
fn latest_reports_max_sequences() {
    let mut store = MetadataStore::new(1);
    assert!(store.submit_badge(badge("//d/s/p", 1, "Editor", BadgeResult::Starting), 1).is_ok());
    assert!(store.submit_badge(badge("//d/s/p", 2, "Editor", BadgeResult::Starting), 2).is_ok());
    store.submit_user_event(event("//d/s", "p", "dave", 1), 3);

    let resp = store
        .latest(&rugs::models::LatestParams { project: String::from("//d/s/p") })
        .unwrap();
    assert_eq!(resp.version, Some(2));
    assert_eq!(resp.last_build_id, 2);
    assert_eq!(resp.last_event_id, 3);
    assert_eq!(resp.last_comment_id, 0);

    let unknown = store
        .latest(&rugs::models::LatestParams { project: String::from("//d/s/other") })
        .unwrap();
    assert_eq!(unknown.last_build_id, 0);
    assert_eq!(unknown.last_event_id, 0);

    let bad = store.latest(&rugs::models::LatestParams { project: String::from("nope") });
    assert_eq!(bad, Err(AppError::InvalidProjectPath));
}

/// Queries can narrow by change bounds and cursor.
#[test]
fn query_filters_apply() {
    let mut store = MetadataStore::new(1);
    for i in 1..=4 {
        assert!(store.submit_badge(badge("//d/s/p", i, "Editor", BadgeResult::Starting), i).is_ok());
    }
    let mut p = query_params("//d/s", None, 2);
    p.maxchange = Some(3);
    let resp = store.metadata_query(&p);
    assert_eq!(resp.items.len(), 2);
    assert!(resp.items.iter().all(|i| i.change == 2 || i.change == 3));

    // A query on an unknown stream or project matches nothing.
    let other = store.metadata_query(&query_params("//other/s", None, 0));
    assert_eq!(other.items.len(), 0);
    let wrong_proj = store.metadata_query(&query_params("//d/s", Some("nope"), 0));
    assert_eq!(wrong_proj.items.len(), 0);
}
