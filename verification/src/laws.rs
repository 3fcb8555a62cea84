//! The laws of the synchronization engine: properties that relate several
//! operations, stated over the store's mathematical model and proved from
//! the operations' specifications.

use vstd::prelude::*;

verus! {

use crate::models::{BadgeModel, CreateBadgeModel, ProjectModel, UpdateMetadataRequestModel,
    UserEventModel};
use crate::paths::{lower_of, normalize_stream_spec, path_of, split_path_spec};
use crate::query::{
    badge_entries_for, badge_entry_of, candidate_projects, changes_of_rows, filtered_badges,
    filtered_events, first_occurrences, max_seq_of_badges, max_seq_of_events, max_seq_spec,
    normalized_project_param, project_badges_spec, project_events_spec, project_in_query,
    project_records_spec, query_spec, record_for, records_for_project, user_entries_for,
    user_entry_of,
};
use crate::store::{
    find_event_spec, find_project_spec, lemma_find_event_spec, lemma_find_project_spec,
    lemma_resolve_or_create_wf, lemma_submit_user_event_wf, merged_event_spec,
    resolve_or_create_spec, submit_badge_spec, submit_user_event_spec, wf, StoreModel,
    MAX_TIMESTAMP_MICROS,
};

/// Case-insensitivity of reads: two queries whose raw stream and project
/// parameters fold to the same normalized values are answered identically,
/// because a query depends on its parameters only through those foldings.
pub proof fn lemma_query_case_insensitive(
    s: StoreModel,
    stream1: Seq<char>,
    stream2: Seq<char>,
    project1: Option<Seq<char>>,
    project2: Option<Seq<char>>,
    minchange: i64,
    maxchange: Option<i64>,
    since: Option<i64>,
)
    requires
        normalize_stream_spec(stream1) == normalize_stream_spec(stream2),
        normalized_project_param(project1) == normalized_project_param(project2),
    ensures
        query_spec(
            s,
            normalize_stream_spec(stream1),
            normalized_project_param(project1),
            minchange,
            maxchange,
            since,
        ) == query_spec(
            s,
            normalize_stream_spec(stream2),
            normalized_project_param(project2),
            minchange,
            maxchange,
            since,
        ),
{
}

/// Case-insensitivity of writes: two badge submissions whose project paths
/// split to the same normalized (stream, name) halves drive the store to the
/// same state, given equal payloads.
pub proof fn lemma_submit_case_insensitive(
    s: StoreModel,
    b1: CreateBadgeModel,
    b2: CreateBadgeModel,
    now: i64,
)
    requires
        split_path_spec(b1.project) == split_path_spec(b2.project),
        b1.change_number == b2.change_number,
        b1.build_type == b2.build_type,
        b1.result == b2.result,
        b1.url == b2.url,
    ensures
        submit_badge_spec(s, b1, now) == submit_badge_spec(s, b2, now),
{
}

/// Idempotent merge: after a user event is submitted, a second submission
/// for the same (stream, project, user, changelist) that only provides a
/// comment preserves the first submission's vote, starred and investigating
/// flags and sync time, overwrites only the comment, and refreshes the
/// sequence number upward. The merged row is the last of the table after
/// either submission.
pub proof fn lemma_idempotent_merge(
    s: StoreModel,
    req1: UpdateMetadataRequestModel,
    req2: UpdateMetadataRequestModel,
    now1: i64,
    now2: i64,
)
    requires
        wf(s),
        s.next_sequence < i64::MAX,
        s.next_project_id < i64::MAX,
        s.next_event_id < i64::MAX,
        0 <= now1 <= MAX_TIMESTAMP_MICROS,
        0 <= now2 <= MAX_TIMESTAMP_MICROS,
        req2.stream == req1.stream,
        req2.project == req1.project,
        req2.user_name == req1.user_name,
        req2.change == req1.change,
        req2.vote is None,
        req2.starred is None,
        req2.investigating is None,
        req2.synced != Some(true),
    ensures
        ({
            let s1 = submit_user_event_spec(s, req1, now1);
            let s2 = submit_user_event_spec(s1, req2, now2);
            let e1 = s1.user_events.last();
            let e2 = s2.user_events.last();
            &&& s1.user_events.len() >= 1
            &&& s2.user_events.len() == s1.user_events.len()
            &&& e2.vote == e1.vote
            &&& e2.starred == e1.starred
            &&& e2.investigating == e1.investigating
            &&& e2.synced_at == e1.synced_at
            &&& e2.comment == (if req2.comment is Some {
                req2.comment
            } else {
                e1.comment
            })
            &&& e2.sequence > e1.sequence
            &&& e2.id == e1.id
            &&& e2.project_id == e1.project_id
            &&& e2.change_number == e1.change_number
            &&& e2.user_name == e1.user_name
        }),
{
    let stream = normalize_stream_spec(req1.stream);
    let name = match req1.project {
        Some(p) => lower_of(p),
        None => Seq::<char>::empty(),
    };
    lemma_resolve_or_create_wf(s, stream, name);
    lemma_submit_user_event_wf(s, req1, now1);
    let pid = resolve_or_create_spec(s, stream, name).0;
    let sa = resolve_or_create_spec(s, stream, name).1;
    let s1 = submit_user_event_spec(s, req1, now1);
    lemma_find_event_spec(sa.user_events, pid, req1.user_name, req1.change);
    match find_event_spec(sa.user_events, pid, req1.user_name, req1.change) {
        Some(j) => {
            sa.user_events.remove_ensures(j);
        },
        None => {},
    }
    // After the first submission the merged event is the last row, and its
    // triple is (pid, user, change).
    let e1 = s1.user_events.last();
    assert(e1.project_id == pid && e1.user_name == req1.user_name && e1.change_number
        == req1.change);
    // The second submission resolves the same project.
    let p1 = ProjectModel { project_id: pid, stream, project: name };
    lemma_find_project_spec(s.projects, stream, name);
    match find_project_spec(s.projects, stream, name) {
        Some(p) => {
            assert(s1.projects == s.projects);
            let k = choose|k: int|
                0 <= k < s.projects.len() && s.projects[k] == p && p.stream == stream && p.project
                    == name;
            lemma_find_unique_project(s1.projects, stream, name, k);
            assert(find_project_spec(s1.projects, stream, name) == Some(p));
        },
        None => {
            assert(s1.projects == s.projects.push(p1));
            lemma_find_unique_project(s1.projects, stream, name, s.projects.len() as int);
            assert(find_project_spec(s1.projects, stream, name) == Some(p1));
        },
    }
    let pid2 = resolve_or_create_spec(s1, stream, name).0;
    let sb = resolve_or_create_spec(s1, stream, name).1;
    assert(pid2 == pid);
    assert(sb == s1);
    // The second lookup finds exactly the merged row, which is the last.
    lemma_find_unique_event(
        s1.user_events,
        pid,
        req1.user_name,
        req1.change,
        s1.user_events.len() - 1,
    );
    let s2 = submit_user_event_spec(s1, req2, now2);
    let jj = s1.user_events.len() - 1;
    s1.user_events.remove_ensures(jj);
    assert(s1.user_events.remove(jj) =~= s1.user_events.drop_last());
    assert(s2.user_events.last() == merged_event_spec(e1, req2, now2, s1.next_sequence));
}

/// A project row that carries the looked-up identity is what the lookup
/// returns, provided identities are unique.
pub proof fn lemma_find_unique_project(
    projects: Seq<ProjectModel>,
    stream: Seq<char>,
    name: Seq<char>,
    k: int,
)
    requires
        0 <= k < projects.len(),
        projects[k].stream == stream,
        projects[k].project == name,
        forall|i: int, j: int|
            0 <= i < j < projects.len() ==> !(projects[i].stream == projects[j].stream
                && projects[i].project == projects[j].project),
    ensures
        find_project_spec(projects, stream, name) == Some(projects[k]),
{
    lemma_find_project_spec(projects, stream, name);
    match find_project_spec(projects, stream, name) {
        Some(p) => {
            let i = choose|i: int|
                0 <= i < projects.len() && projects[i] == p && p.stream == stream && p.project
                    == name;
            if i != k {
                if i < k {
                    assert(!(projects[i].stream == projects[k].stream && projects[i].project
                        == projects[k].project));
                } else {
                    assert(!(projects[k].stream == projects[i].stream && projects[k].project
                        == projects[i].project));
                }
            }
        },
        None => {
            assert(!(projects[k].stream == stream && projects[k].project == name));
        },
    }
}

/// Paths of two projects of one stream agree only when the names do.
pub proof fn lemma_path_of_injective(stream: Seq<char>, n1: Seq<char>, n2: Seq<char>)
    requires
        path_of(stream, n1) == path_of(stream, n2),
    ensures
        n1 == n2,
{
    assert(n1 =~= path_of(stream, n1).skip(stream.len() as int + 1));
    assert(n2 =~= path_of(stream, n2).skip(stream.len() as int + 1));
}

/// First occurrences keep exactly the values of the underlying sequence,
/// each once.
pub proof fn lemma_first_occurrences_props(s: Seq<i64>)
    ensures
        first_occurrences(s).no_duplicates(),
        forall|x: i64| #[trigger] first_occurrences(s).contains(x) <==> s.contains(x),
    decreases s.len(),
{
    if s.len() > 0 {
        lemma_first_occurrences_props(s.drop_last());
        let rest = first_occurrences(s.drop_last());
        let x0 = s.last();
        assert forall|x: i64| #[trigger] first_occurrences(s).contains(x) <==> s.contains(x) by {
            if s.contains(x) {
                let i = choose|i: int| 0 <= i < s.len() && s[i] == x;
                if i < s.len() - 1 {
                    assert(s.drop_last()[i] == x);
                    assert(s.drop_last().contains(x));
                    assert(rest.contains(x));
                    if rest.contains(x0) {
                        assert(first_occurrences(s).contains(x));
                    } else {
                        let m = choose|m: int| 0 <= m < rest.len() && rest[m] == x;
                        assert(first_occurrences(s)[m] == x);
                        assert(first_occurrences(s).contains(x));
                    }
                } else {
                    if rest.contains(x0) {
                        let m = choose|m: int| 0 <= m < rest.len() && rest[m] == x0;
                        assert(first_occurrences(s)[m] == x);
                    } else {
                        assert(first_occurrences(s).last() == x);
                    }
                    assert(first_occurrences(s).contains(x));
                }
            }
            if first_occurrences(s).contains(x) {
                let m = choose|m: int|
                    0 <= m < first_occurrences(s).len() && first_occurrences(s)[m] == x;
                if rest.contains(x0) {
                    assert(rest[m] == x);
                    assert(s.drop_last().contains(x));
                    let i = choose|i: int| 0 <= i < s.drop_last().len() && s.drop_last()[i] == x;
                    assert(s[i] == x);
                    assert(s.contains(x));
                } else {
                    if m < rest.len() {
                        assert(rest[m] == x);
                        assert(rest.contains(x));
                        assert(s.drop_last().contains(x));
                        let i = choose|i: int|
                            0 <= i < s.drop_last().len() && s.drop_last()[i] == x;
                        assert(s[i] == x);
                        assert(s.contains(x));
                    } else {
                        assert(x == x0);
                        assert(s.contains(x));
                    }
                }
            }
        }
        if !rest.contains(x0) {
            let fo = first_occurrences(s);
            assert forall|i: int, j: int| 0 <= i < j < fo.len() implies fo[i] != fo[j] by {
                if j < fo.len() - 1 {
                    assert(rest[i] == fo[i] && rest[j] == fo[j]);
                } else {
                    assert(fo[i] == rest[i]);
                    if fo[i] == x0 {
                        assert(rest.contains(x0));
                    }
                }
            }
        }
    }
}

/// A changelist is listed for a row set exactly when one of its rows carries
/// it.
pub proof fn lemma_changes_of_rows_contains(bs: Seq<BadgeModel>, es: Seq<UserEventModel>)
    ensures
        changes_of_rows(bs, es).no_duplicates(),
        forall|c: i64|
            #[trigger] changes_of_rows(bs, es).contains(c) <==> ((exists|i: int|
                0 <= i < bs.len() && (#[trigger] bs[i]).change_number == c) || (exists|i: int|
                0 <= i < es.len() && (#[trigger] es[i]).change_number == c)),
{
    let bchanges = bs.map_values(|b: BadgeModel| b.change_number);
    let echanges = es.map_values(|e: UserEventModel| e.change_number);
    let cat = bchanges + echanges;
    lemma_first_occurrences_props(cat);
    assert forall|c: i64| #[trigger] changes_of_rows(bs, es).contains(c) <==> ((exists|i: int|
        0 <= i < bs.len() && (#[trigger] bs[i]).change_number == c) || (exists|i: int|
        0 <= i < es.len() && (#[trigger] es[i]).change_number == c)) by {
        if cat.contains(c) {
            let i = choose|i: int| 0 <= i < cat.len() && cat[i] == c;
            if i < bchanges.len() {
                assert(bs[i].change_number == c);
            } else {
                assert(es[i - bchanges.len()].change_number == c);
            }
        }
        if exists|i: int| 0 <= i < bs.len() && (#[trigger] bs[i]).change_number == c {
            let i = choose|i: int| 0 <= i < bs.len() && (#[trigger] bs[i]).change_number == c;
            assert(cat[i] == c);
            assert(cat.contains(c));
        }
        if exists|i: int| 0 <= i < es.len() && (#[trigger] es[i]).change_number == c {
            let i = choose|i: int| 0 <= i < es.len() && (#[trigger] es[i]).change_number == c;
            assert(cat[bchanges.len() + i] == c);
            assert(cat.contains(c));
        }
    }
}

/// Every filtered badge row is a table row passing the filter, and every
/// table row passing the filter is kept.
pub proof fn lemma_filtered_badges_membership(
    bs: Seq<BadgeModel>,
    pid: i64,
    minchange: i64,
    maxchange: Option<i64>,
    since: Option<i64>,
)
    ensures
        forall|j: int|
            0 <= j < filtered_badges(bs, pid, minchange, maxchange, since).len() ==> {
                let r = #[trigger] filtered_badges(bs, pid, minchange, maxchange, since)[j];
                crate::query::badge_in_filter(r, pid, minchange, maxchange, since) && exists|i: int|
                    0 <= i < bs.len() && bs[i] == r
            },
        forall|i: int|
            0 <= i < bs.len() && crate::query::badge_in_filter(
                #[trigger] bs[i],
                pid,
                minchange,
                maxchange,
                since,
            ) ==> filtered_badges(bs, pid, minchange, maxchange, since).contains(bs[i]),
    decreases bs.len(),
{
    if bs.len() > 0 {
        lemma_filtered_badges_membership(bs.drop_last(), pid, minchange, maxchange, since);
        let rest = filtered_badges(bs.drop_last(), pid, minchange, maxchange, since);
        let fo = filtered_badges(bs, pid, minchange, maxchange, since);
        assert forall|j: int| 0 <= j < fo.len() implies {
            let r = #[trigger] fo[j];
            crate::query::badge_in_filter(r, pid, minchange, maxchange, since) && exists|i: int|
                0 <= i < bs.len() && bs[i] == r
        } by {
            if j < rest.len() {
                assert(fo[j] == rest[j]);
                let i = choose|i: int| 0 <= i < bs.drop_last().len() && bs.drop_last()[i] == rest[j];
                assert(bs[i] == fo[j]);
            } else {
                assert(fo[j] == bs.last());
                assert(bs[bs.len() - 1] == fo[j]);
            }
        }
        assert forall|i: int|
            0 <= i < bs.len() && crate::query::badge_in_filter(
                #[trigger] bs[i],
                pid,
                minchange,
                maxchange,
                since,
            ) implies fo.contains(bs[i]) by {
            if i < bs.len() - 1 {
                assert(bs.drop_last()[i] == bs[i]);
                assert(rest.contains(bs[i]));
                let m = choose|m: int| 0 <= m < rest.len() && rest[m] == bs[i];
                assert(fo[m] == bs[i]);
            } else {
                assert(fo.last() == bs[i]);
            }
        }
    }
}

/// Every filtered user-event row is a table row passing the filter, and
/// every table row passing the filter is kept.
pub proof fn lemma_filtered_events_membership(
    es: Seq<UserEventModel>,
    pid: i64,
    minchange: i64,
    maxchange: Option<i64>,
    since: Option<i64>,
)
    ensures
        forall|j: int|
            0 <= j < filtered_events(es, pid, minchange, maxchange, since).len() ==> {
                let r = #[trigger] filtered_events(es, pid, minchange, maxchange, since)[j];
                crate::query::event_in_filter(r, pid, minchange, maxchange, since) && exists|i: int|
                    0 <= i < es.len() && es[i] == r
            },
        forall|i: int|
            0 <= i < es.len() && crate::query::event_in_filter(
                #[trigger] es[i],
                pid,
                minchange,
                maxchange,
                since,
            ) ==> filtered_events(es, pid, minchange, maxchange, since).contains(es[i]),
    decreases es.len(),
{
    if es.len() > 0 {
        lemma_filtered_events_membership(es.drop_last(), pid, minchange, maxchange, since);
        let rest = filtered_events(es.drop_last(), pid, minchange, maxchange, since);
        let fo = filtered_events(es, pid, minchange, maxchange, since);
        assert forall|j: int| 0 <= j < fo.len() implies {
            let r = #[trigger] fo[j];
            crate::query::event_in_filter(r, pid, minchange, maxchange, since) && exists|i: int|
                0 <= i < es.len() && es[i] == r
        } by {
            if j < rest.len() {
                assert(fo[j] == rest[j]);
                let i = choose|i: int| 0 <= i < es.drop_last().len() && es.drop_last()[i] == rest[j];
                assert(es[i] == fo[j]);
            } else {
                assert(fo[j] == es.last());
                assert(es[es.len() - 1] == fo[j]);
            }
        }
        assert forall|i: int|
            0 <= i < es.len() && crate::query::event_in_filter(
                #[trigger] es[i],
                pid,
                minchange,
                maxchange,
                since,
            ) implies fo.contains(es[i]) by {
            if i < es.len() - 1 {
                assert(es.drop_last()[i] == es[i]);
                assert(rest.contains(es[i]));
                let m = choose|m: int| 0 <= m < rest.len() && rest[m] == es[i];
                assert(fo[m] == es[i]);
            } else {
                assert(fo.last() == es[i]);
            }
        }
    }
}

/// A row with the record's changelist contributes its entry to the record's
/// badge list.
pub proof fn lemma_badge_entries_contains(bs: Seq<BadgeModel>, c: i64, i: int)
    requires
        0 <= i < bs.len(),
        bs[i].change_number == c,
    ensures
        badge_entries_for(bs, c).contains(badge_entry_of(bs[i])),
    decreases bs.len(),
{
    let rest = badge_entries_for(bs.drop_last(), c);
    if i < bs.len() - 1 {
        assert(bs.drop_last()[i] == bs[i]);
        lemma_badge_entries_contains(bs.drop_last(), c, i);
        let m = choose|m: int| 0 <= m < rest.len() && rest[m] == badge_entry_of(bs[i]);
        assert(badge_entries_for(bs, c)[m] == badge_entry_of(bs[i]));
    } else {
        assert(badge_entries_for(bs, c).last() == badge_entry_of(bs[i]));
    }
}

/// A row with the record's changelist contributes its entry to the record's
/// user list.
pub proof fn lemma_user_entries_contains(es: Seq<UserEventModel>, c: i64, i: int)
    requires
        0 <= i < es.len(),
        es[i].change_number == c,
    ensures
        user_entries_for(es, c).contains(user_entry_of(es[i])),
    decreases es.len(),
{
    let rest = user_entries_for(es.drop_last(), c);
    if i < es.len() - 1 {
        assert(es.drop_last()[i] == es[i]);
        lemma_user_entries_contains(es.drop_last(), c, i);
        let m = choose|m: int| 0 <= m < rest.len() && rest[m] == user_entry_of(es[i]);
        assert(user_entries_for(es, c)[m] == user_entry_of(es[i]));
    } else {
        assert(user_entries_for(es, c).last() == user_entry_of(es[i]));
    }
}

/// The candidate projects are exactly the matching rows of the projects
/// table.
pub proof fn lemma_candidates_sub(
    projects: Seq<ProjectModel>,
    stream: Seq<char>,
    pv: Option<Seq<char>>,
)
    ensures
        forall|k: int|
            0 <= k < candidate_projects(projects, stream, pv).len() ==> project_in_query(
                #[trigger] candidate_projects(projects, stream, pv)[k],
                stream,
                pv,
            ) && exists|i: int|
                0 <= i < projects.len() && projects[i] == candidate_projects(projects, stream, pv)[k],
        forall|i: int|
            0 <= i < projects.len() && project_in_query(#[trigger] projects[i], stream, pv)
                ==> candidate_projects(projects, stream, pv).contains(projects[i]),
    decreases projects.len(),
{
    if projects.len() > 0 {
        lemma_candidates_sub(projects.drop_last(), stream, pv);
        let rest = candidate_projects(projects.drop_last(), stream, pv);
        let co = candidate_projects(projects, stream, pv);
        assert forall|k: int| 0 <= k < co.len() implies project_in_query(
            #[trigger] co[k],
            stream,
            pv,
        ) && exists|i: int| 0 <= i < projects.len() && projects[i] == co[k] by {
            if k < rest.len() {
                assert(co[k] == rest[k]);
                let i = choose|i: int|
                    0 <= i < projects.drop_last().len() && projects.drop_last()[i] == rest[k];
                assert(projects[i] == co[k]);
            } else {
                assert(co[k] == projects.last());
                assert(projects[projects.len() - 1] == co[k]);
            }
        }
        assert forall|i: int|
            0 <= i < projects.len() && project_in_query(#[trigger] projects[i], stream, pv) implies
            co.contains(projects[i]) by {
            if i < projects.len() - 1 {
                assert(projects.drop_last()[i] == projects[i]);
                assert(rest.contains(projects[i]));
                let m = choose|m: int| 0 <= m < rest.len() && rest[m] == projects[i];
                assert(co[m] == projects[i]);
            } else {
                assert(co.last() == projects[i]);
            }
        }
    }
}

/// Candidate projects inherit the table's identity uniqueness.
pub proof fn lemma_candidates_distinct(
    projects: Seq<ProjectModel>,
    stream: Seq<char>,
    pv: Option<Seq<char>>,
)
    requires
        forall|i: int, j: int|
            0 <= i < j < projects.len() ==> !(projects[i].stream == projects[j].stream
                && projects[i].project == projects[j].project),
    ensures
        forall|k1: int, k2: int|
            0 <= k1 < k2 < candidate_projects(projects, stream, pv).len() ==> !(
            candidate_projects(projects, stream, pv)[k1].stream == candidate_projects(
                projects,
                stream,
                pv,
            )[k2].stream && candidate_projects(projects, stream, pv)[k1].project
                == candidate_projects(projects, stream, pv)[k2].project),
    decreases projects.len(),
{
    if projects.len() > 0 {
        assert forall|i: int, j: int| 0 <= i < j < projects.drop_last().len() implies !(
        projects.drop_last()[i].stream == projects.drop_last()[j].stream
            && projects.drop_last()[i].project == projects.drop_last()[j].project) by {
            assert(projects.drop_last()[i] == projects[i]);
            assert(projects.drop_last()[j] == projects[j]);
        }
        lemma_candidates_distinct(projects.drop_last(), stream, pv);
        lemma_candidates_sub(projects.drop_last(), stream, pv);
        let rest = candidate_projects(projects.drop_last(), stream, pv);
        let co = candidate_projects(projects, stream, pv);
        if project_in_query(projects.last(), stream, pv) {
            assert forall|k1: int, k2: int| 0 <= k1 < k2 < co.len() implies !(co[k1].stream
                == co[k2].stream && co[k1].project == co[k2].project) by {
                if k2 < rest.len() {
                    assert(co[k1] == rest[k1] && co[k2] == rest[k2]);
                } else {
                    assert(co[k1] == rest[k1]);
                    assert(co[k2] == projects.last());
                    let i = choose|i: int|
                        0 <= i < projects.drop_last().len() && projects.drop_last()[i] == rest[k1];
                    assert(projects[i] == rest[k1]);
                    assert(!(projects[i].stream == projects[projects.len() - 1].stream
                        && projects[i].project == projects[projects.len() - 1].project));
                }
            }
        } else {
            assert forall|k1: int, k2: int| 0 <= k1 < k2 < co.len() implies !(co[k1].stream
                == co[k2].stream && co[k1].project == co[k2].project) by {
                assert(co[k1] == rest[k1] && co[k2] == rest[k2]);
            }
        }
    }
}

/// Whether a record is one of the given project's records under this query.
pub open spec fn record_of_project(
    s: StoreModel,
    stream: Seq<char>,
    p: ProjectModel,
    minchange: i64,
    maxchange: Option<i64>,
    since: Option<i64>,
    r: crate::models::RecordModel,
) -> bool {
    exists|l: int|
        0 <= l < project_records_spec(s, stream, p, minchange, maxchange, since).len() && r == (
        #[trigger] project_records_spec(s, stream, p, minchange, maxchange, since)[l])
}

/// Whether a record belongs to one of the candidate projects.
pub open spec fn record_of_candidates(
    s: StoreModel,
    stream: Seq<char>,
    cps: Seq<ProjectModel>,
    minchange: i64,
    maxchange: Option<i64>,
    since: Option<i64>,
    r: crate::models::RecordModel,
) -> bool {
    exists|k: int|
        0 <= k < cps.len() && record_of_project(
            s,
            stream,
            #[trigger] cps[k],
            minchange,
            maxchange,
            since,
            r,
        )
}

/// The answer's records are the candidate projects' records and nothing
/// else: each project's record appears among the items, and every item is
/// some candidate's record.
pub proof fn lemma_items_structure(
    s: StoreModel,
    stream: Seq<char>,
    cps: Seq<ProjectModel>,
    minchange: i64,
    maxchange: Option<i64>,
    since: Option<i64>,
)
    ensures
        forall|k: int, l: int|
            0 <= k < cps.len() && 0 <= l < project_records_spec(
                s,
                stream,
                cps[k],
                minchange,
                maxchange,
                since,
            ).len() ==> crate::query::items_spec(s, stream, cps, minchange, maxchange, since).contains(
                #[trigger] project_records_spec(s, stream, cps[k], minchange, maxchange, since)[l],
            ),
        forall|j: int|
            0 <= j < crate::query::items_spec(s, stream, cps, minchange, maxchange, since).len()
                ==> record_of_candidates(
                s,
                stream,
                cps,
                minchange,
                maxchange,
                since,
                #[trigger] crate::query::items_spec(s, stream, cps, minchange, maxchange, since)[j],
            ),
    decreases cps.len(),
{
    if cps.len() > 0 {
        lemma_items_structure(s, stream, cps.drop_last(), minchange, maxchange, since);
        let prev = crate::query::items_spec(s, stream, cps.drop_last(), minchange, maxchange, since);
        let block = project_records_spec(s, stream, cps.last(), minchange, maxchange, since);
        let items = crate::query::items_spec(s, stream, cps, minchange, maxchange, since);
        assert(items == prev + block);
        assert forall|k: int, l: int|
            0 <= k < cps.len() && 0 <= l < project_records_spec(
                s,
                stream,
                cps[k],
                minchange,
                maxchange,
                since,
            ).len() implies items.contains(
            #[trigger] project_records_spec(s, stream, cps[k], minchange, maxchange, since)[l],
        ) by {
            if k < cps.len() - 1 {
                assert(cps.drop_last()[k] == cps[k]);
                assert(prev.contains(
                    project_records_spec(s, stream, cps[k], minchange, maxchange, since)[l],
                ));
                let m = choose|m: int|
                    0 <= m < prev.len() && prev[m] == project_records_spec(
                        s,
                        stream,
                        cps[k],
                        minchange,
                        maxchange,
                        since,
                    )[l];
                assert(items[m] == project_records_spec(
                    s,
                    stream,
                    cps[k],
                    minchange,
                    maxchange,
                    since,
                )[l]);
            } else {
                assert(cps[k] == cps.last());
                assert(items[prev.len() + l] == block[l]);
            }
        }
        assert forall|j: int| 0 <= j < items.len() implies record_of_candidates(
            s,
            stream,
            cps,
            minchange,
            maxchange,
            since,
            #[trigger] items[j],
        ) by {
            if j < prev.len() {
                assert(items[j] == prev[j]);
                assert(record_of_candidates(
                    s,
                    stream,
                    cps.drop_last(),
                    minchange,
                    maxchange,
                    since,
                    prev[j],
                ));
                let k = choose|k: int|
                    0 <= k < cps.drop_last().len() && record_of_project(
                        s,
                        stream,
                        #[trigger] cps.drop_last()[k],
                        minchange,
                        maxchange,
                        since,
                        prev[j],
                    );
                assert(cps.drop_last()[k] == cps[k]);
                assert(record_of_project(s, stream, cps[k], minchange, maxchange, since, items[j]));
            } else {
                let l = j - prev.len();
                assert(items[j] == block[l]);
                assert(cps[cps.len() - 1] == cps.last());
                assert(record_of_project(
                    s,
                    stream,
                    cps[cps.len() - 1],
                    minchange,
                    maxchange,
                    since,
                    items[j],
                ));
            }
        }
    }
}

/// No two items of one answer agree on both project path and changelist:
/// within one project the changelists are distinct, and across projects the
/// paths differ.
pub proof fn lemma_items_unique(
    s: StoreModel,
    stream: Seq<char>,
    cps: Seq<ProjectModel>,
    minchange: i64,
    maxchange: Option<i64>,
    since: Option<i64>,
)
    requires
        forall|k1: int, k2: int|
            0 <= k1 < k2 < cps.len() ==> !(cps[k1].stream == cps[k2].stream && cps[k1].project
                == cps[k2].project),
        forall|k: int| 0 <= k < cps.len() ==> (#[trigger] cps[k]).stream == stream,
    ensures
        forall|j1: int, j2: int|
            0 <= j1 < j2 < crate::query::items_spec(s, stream, cps, minchange, maxchange, since).len()
                ==> !((#[trigger] crate::query::items_spec(
                s,
                stream,
                cps,
                minchange,
                maxchange,
                since,
            )[j1]).project == (#[trigger] crate::query::items_spec(
                s,
                stream,
                cps,
                minchange,
                maxchange,
                since,
            )[j2]).project && crate::query::items_spec(s, stream, cps, minchange, maxchange, since)[j1].change
                == crate::query::items_spec(s, stream, cps, minchange, maxchange, since)[j2].change),
    decreases cps.len(),
{
    if cps.len() > 0 {
        assert forall|k1: int, k2: int| 0 <= k1 < k2 < cps.drop_last().len() implies !(
        cps.drop_last()[k1].stream == cps.drop_last()[k2].stream && cps.drop_last()[k1].project
            == cps.drop_last()[k2].project) by {
            assert(cps.drop_last()[k1] == cps[k1]);
            assert(cps.drop_last()[k2] == cps[k2]);
        }
        assert forall|k: int| 0 <= k < cps.drop_last().len() implies (
        #[trigger] cps.drop_last()[k]).stream == stream by {
            assert(cps.drop_last()[k] == cps[k]);
        }
        lemma_items_unique(s, stream, cps.drop_last(), minchange, maxchange, since);
        lemma_items_structure(s, stream, cps.drop_last(), minchange, maxchange, since);
        let prev = crate::query::items_spec(s, stream, cps.drop_last(), minchange, maxchange, since);
        let p = cps.last();
        let fb = project_badges_spec(s, p, minchange, maxchange, since);
        let fe = project_events_spec(s, p, minchange, maxchange, since);
        let block = project_records_spec(s, stream, p, minchange, maxchange, since);
        let items = crate::query::items_spec(s, stream, cps, minchange, maxchange, since);
        assert(items == prev + block);
        lemma_changes_of_rows_contains(fb, fe);
        let changes = changes_of_rows(fb, fe);
        assert forall|j1: int, j2: int| 0 <= j1 < j2 < items.len() implies !(
        (#[trigger] items[j1]).project == (#[trigger] items[j2]).project && items[j1].change
            == items[j2].change) by {
            if j2 < prev.len() {
                assert(items[j1] == prev[j1] && items[j2] == prev[j2]);
            } else if j1 >= prev.len() {
                let l1 = j1 - prev.len();
                let l2 = j2 - prev.len();
                assert(items[j1] == block[l1] && items[j2] == block[l2]);
                assert(block[l1].change == changes[l1] && block[l2].change == changes[l2]);
                assert(changes[l1] != changes[l2]);
            } else {
                let l2 = j2 - prev.len();
                assert(items[j1] == prev[j1] && items[j2] == block[l2]);
                assert(block[l2].project == path_of(stream, p.project));
                assert(record_of_candidates(
                    s,
                    stream,
                    cps.drop_last(),
                    minchange,
                    maxchange,
                    since,
                    prev[j1],
                ));
                let k = choose|k: int|
                    0 <= k < cps.drop_last().len() && record_of_project(
                        s,
                        stream,
                        #[trigger] cps.drop_last()[k],
                        minchange,
                        maxchange,
                        since,
                        prev[j1],
                    );
                assert(cps.drop_last()[k] == cps[k]);
                let bk = project_records_spec(s, stream, cps[k], minchange, maxchange, since);
                let l = choose|l: int| 0 <= l < bk.len() && prev[j1] == #[trigger] bk[l];
                assert(prev[j1].project == path_of(stream, cps[k].project));
                if items[j1].project == items[j2].project {
                    lemma_path_of_injective(stream, cps[k].project, p.project);
                    assert(!(cps[k].stream == cps[cps.len() - 1].stream && cps[k].project
                        == cps[cps.len() - 1].project));
                }
            }
        }
    }
}

/// A badge row of a candidate project that passes the filter is answered by
/// exactly the record of its (project, changelist): the record exists, names
/// the project's path, and carries the filtered rows' entries in write
/// order — among them this row's.
pub proof fn lemma_badge_row_in_query(
    s: StoreModel,
    stream: Seq<char>,
    pv: Option<Seq<char>>,
    minchange: i64,
    maxchange: Option<i64>,
    since: Option<i64>,
    k: int,
    bi: int,
)
    requires
        0 <= k < candidate_projects(s.projects, stream, pv).len(),
        0 <= bi < s.badges.len(),
        s.badges[bi].project_id == candidate_projects(s.projects, stream, pv)[k].project_id,
        crate::query::badge_in_filter(
            s.badges[bi],
            candidate_projects(s.projects, stream, pv)[k].project_id,
            minchange,
            maxchange,
            since,
        ),
    ensures
        ({
            let cps = candidate_projects(s.projects, stream, pv);
            let resp = query_spec(s, stream, pv, minchange, maxchange, since);
            exists|j: int|
                0 <= j < resp.items.len() && (#[trigger] resp.items[j]).project == path_of(
                    stream,
                    cps[k].project,
                ) && resp.items[j].change == s.badges[bi].change_number && resp.items[j].badges
                    == badge_entries_for(
                    project_badges_spec(s, cps[k], minchange, maxchange, since),
                    s.badges[bi].change_number,
                ) && resp.items[j].users == user_entries_for(
                    project_events_spec(s, cps[k], minchange, maxchange, since),
                    s.badges[bi].change_number,
                ) && resp.items[j].badges.contains(badge_entry_of(s.badges[bi]))
        }),
{
    let cps = candidate_projects(s.projects, stream, pv);
    let p = cps[k];
    let c = s.badges[bi].change_number;
    let fb = project_badges_spec(s, p, minchange, maxchange, since);
    let fe = project_events_spec(s, p, minchange, maxchange, since);
    lemma_filtered_badges_membership(s.badges, p.project_id, minchange, maxchange, since);
    assert(fb.contains(s.badges[bi]));
    let fi = choose|fi: int| 0 <= fi < fb.len() && fb[fi] == s.badges[bi];
    lemma_changes_of_rows_contains(fb, fe);
    assert(changes_of_rows(fb, fe).contains(c));
    let l = choose|l: int|
        0 <= l < changes_of_rows(fb, fe).len() && changes_of_rows(fb, fe)[l] == c;
    let block = project_records_spec(s, stream, p, minchange, maxchange, since);
    assert(block[l] == record_for(path_of(stream, p.project), fb, fe, c));
    lemma_badge_entries_contains(fb, c, fi);
    lemma_items_structure(s, stream, cps, minchange, maxchange, since);
    let items = crate::query::items_spec(s, stream, cps, minchange, maxchange, since);
    assert(items.contains(block[l]));
    let j = choose|j: int| 0 <= j < items.len() && items[j] == block[l];
    assert(query_spec(s, stream, pv, minchange, maxchange, since).items[j] == block[l]);
}

/// A user-event row of a candidate project that passes the filter is
/// answered by exactly the record of its (project, changelist), whose user
/// list carries this row's entry — the row's current, fully merged state.
pub proof fn lemma_event_row_in_query(
    s: StoreModel,
    stream: Seq<char>,
    pv: Option<Seq<char>>,
    minchange: i64,
    maxchange: Option<i64>,
    since: Option<i64>,
    k: int,
    ei: int,
)
    requires
        0 <= k < candidate_projects(s.projects, stream, pv).len(),
        0 <= ei < s.user_events.len(),
        s.user_events[ei].project_id == candidate_projects(s.projects, stream, pv)[k].project_id,
        crate::query::event_in_filter(
            s.user_events[ei],
            candidate_projects(s.projects, stream, pv)[k].project_id,
            minchange,
            maxchange,
            since,
        ),
    ensures
        ({
            let cps = candidate_projects(s.projects, stream, pv);
            let resp = query_spec(s, stream, pv, minchange, maxchange, since);
            exists|j: int|
                0 <= j < resp.items.len() && (#[trigger] resp.items[j]).project == path_of(
                    stream,
                    cps[k].project,
                ) && resp.items[j].change == s.user_events[ei].change_number && resp.items[j].badges
                    == badge_entries_for(
                    project_badges_spec(s, cps[k], minchange, maxchange, since),
                    s.user_events[ei].change_number,
                ) && resp.items[j].users == user_entries_for(
                    project_events_spec(s, cps[k], minchange, maxchange, since),
                    s.user_events[ei].change_number,
                ) && resp.items[j].users.contains(user_entry_of(s.user_events[ei]))
        }),
{
    let cps = candidate_projects(s.projects, stream, pv);
    let p = cps[k];
    let c = s.user_events[ei].change_number;
    let fb = project_badges_spec(s, p, minchange, maxchange, since);
    let fe = project_events_spec(s, p, minchange, maxchange, since);
    lemma_filtered_events_membership(s.user_events, p.project_id, minchange, maxchange, since);
    assert(fe.contains(s.user_events[ei]));
    let fi = choose|fi: int| 0 <= fi < fe.len() && fe[fi] == s.user_events[ei];
    lemma_changes_of_rows_contains(fb, fe);
    assert(changes_of_rows(fb, fe).contains(c));
    let l = choose|l: int|
        0 <= l < changes_of_rows(fb, fe).len() && changes_of_rows(fb, fe)[l] == c;
    let block = project_records_spec(s, stream, p, minchange, maxchange, since);
    assert(block[l] == record_for(path_of(stream, p.project), fb, fe, c));
    lemma_user_entries_contains(fe, c, fi);
    lemma_items_structure(s, stream, cps, minchange, maxchange, since);
    let items = crate::query::items_spec(s, stream, cps, minchange, maxchange, since);
    assert(items.contains(block[l]));
    let j = choose|j: int| 0 <= j < items.len() && items[j] == block[l];
    assert(query_spec(s, stream, pv, minchange, maxchange, since).items[j] == block[l]);
}

/// Completeness of a full re-query: with no upper change bound, a lower
/// bound below every changelist, and a since-cursor of zero (or none), the
/// answer holds, for every badge and every user event of every candidate
/// project, the one record of its (project, changelist) — its badge and user
/// lists carrying every such row's entry, in write order — and no two
/// records share a (project path, changelist) pair.
pub proof fn lemma_full_query_complete(
    s: StoreModel,
    stream: Seq<char>,
    pv: Option<Seq<char>>,
    minchange: i64,
    since: Option<i64>,
)
    requires
        wf(s),
        since is None || since == Some(0i64),
        forall|i: int|
            0 <= i < s.badges.len() ==> (#[trigger] s.badges[i]).change_number >= minchange,
        forall|i: int|
            0 <= i < s.user_events.len() ==> (#[trigger] s.user_events[i]).change_number
                >= minchange,
    ensures
        ({
            let cps = candidate_projects(s.projects, stream, pv);
            let resp = query_spec(s, stream, pv, minchange, None, since);
            &&& forall|j1: int, j2: int|
                0 <= j1 < j2 < resp.items.len() ==> !((#[trigger] resp.items[j1]).project == (
                #[trigger] resp.items[j2]).project && resp.items[j1].change
                    == resp.items[j2].change)
            &&& forall|k: int, bi: int|
                0 <= k < cps.len() && 0 <= bi < s.badges.len() && (
                #[trigger] s.badges[bi]).project_id == (#[trigger] cps[k]).project_id
                    ==> exists|j: int|
                    0 <= j < resp.items.len() && (#[trigger] resp.items[j]).project == path_of(
                        stream,
                        cps[k].project,
                    ) && resp.items[j].change == s.badges[bi].change_number && resp.items[j].badges == badge_entries_for(
                        project_badges_spec(s, cps[k], minchange, None, since),
                        s.badges[bi].change_number,
                    ) && resp.items[j].users == user_entries_for(
                        project_events_spec(s, cps[k], minchange, None, since),
                        s.badges[bi].change_number,
                    )
                        && resp.items[j].badges.contains(badge_entry_of(s.badges[bi]))
            &&& forall|k: int, ei: int|
                0 <= k < cps.len() && 0 <= ei < s.user_events.len() && (
                #[trigger] s.user_events[ei]).project_id == (#[trigger] cps[k]).project_id
                    ==> exists|j: int|
                    0 <= j < resp.items.len() && (#[trigger] resp.items[j]).project == path_of(
                        stream,
                        cps[k].project,
                    ) && resp.items[j].change == s.user_events[ei].change_number && resp.items[j].badges == badge_entries_for(
                        project_badges_spec(s, cps[k], minchange, None, since),
                        s.user_events[ei].change_number,
                    ) && resp.items[j].users == user_entries_for(
                        project_events_spec(s, cps[k], minchange, None, since),
                        s.user_events[ei].change_number,
                    )
                        && resp.items[j].users.contains(user_entry_of(s.user_events[ei]))
        }),
{
    let cps = candidate_projects(s.projects, stream, pv);
    let resp = query_spec(s, stream, pv, minchange, None, since);
    lemma_candidates_sub(s.projects, stream, pv);
    lemma_candidates_distinct(s.projects, stream, pv);
    lemma_items_unique(s, stream, cps, minchange, None, since);
    assert forall|k: int, bi: int|
        0 <= k < cps.len() && 0 <= bi < s.badges.len() && (#[trigger] s.badges[bi]).project_id == (
        #[trigger] cps[k]).project_id implies exists|j: int|
        0 <= j < resp.items.len() && (#[trigger] resp.items[j]).project == path_of(
            stream,
            cps[k].project,
        ) && resp.items[j].change == s.badges[bi].change_number && resp.items[j].badges
            == badge_entries_for(
            project_badges_spec(s, cps[k], minchange, None, since),
            s.badges[bi].change_number,
        ) && resp.items[j].users == user_entries_for(
            project_events_spec(s, cps[k], minchange, None, since),
            s.badges[bi].change_number,
        ) && resp.items[j].badges.contains(badge_entry_of(s.badges[bi])) by {
        assert(crate::query::badge_in_filter(
            s.badges[bi],
            cps[k].project_id,
            minchange,
            None,
            since,
        ));
        lemma_badge_row_in_query(s, stream, pv, minchange, None, since, k, bi);
    }
    assert forall|k: int, ei: int|
        0 <= k < cps.len() && 0 <= ei < s.user_events.len() && (
    #[trigger] s.user_events[ei]).project_id == (#[trigger] cps[k]).project_id implies exists|
        j: int,
    |
        0 <= j < resp.items.len() && (#[trigger] resp.items[j]).project == path_of(
            stream,
            cps[k].project,
        ) && resp.items[j].change == s.user_events[ei].change_number && resp.items[j].badges
            == badge_entries_for(
            project_badges_spec(s, cps[k], minchange, None, since),
            s.user_events[ei].change_number,
        ) && resp.items[j].users == user_entries_for(
            project_events_spec(s, cps[k], minchange, None, since),
            s.user_events[ei].change_number,
        ) && resp.items[j].users.contains(user_entry_of(s.user_events[ei])) by {
        assert(crate::query::event_in_filter(
            s.user_events[ei],
            cps[k].project_id,
            minchange,
            None,
            since,
        ));
        lemma_event_row_in_query(s, stream, pv, minchange, None, since, k, ei);
    }
}

/// Round trip: a badge submission accepted for a valid project path is
/// returned by a following query for that (stream, project) whose lower
/// change bound is the badge's changelist, with no upper bound and no
/// cursor: exactly one record carries the badge's (project, changelist), and
/// the last entry of its badge list is the submitted badge — the payload as
/// handed in. The submitted row is the newest, so it comes last in the
/// record's write-ordered list.
pub proof fn lemma_badge_round_trip(s: StoreModel, b: CreateBadgeModel, now: i64)
    requires
        wf(s),
        s.next_sequence < i64::MAX,
        s.next_project_id < i64::MAX,
        split_path_spec(b.project) is Some,
    ensures
        ({
            let parts = split_path_spec(b.project)->0;
            let s2 = submit_badge_spec(s, b, now)->0;
            let nb = s2.badges.last();
            let resp = query_spec(s2, parts.0, Some(parts.1), b.change_number, None, None);
            &&& nb.build_type == b.build_type
            &&& nb.url == b.url
            &&& nb.result == b.result
            &&& nb.change_number == b.change_number
            &&& exists|j: int|
                0 <= j < resp.items.len() && (#[trigger] resp.items[j]).change == b.change_number
                    && resp.items[j].badges.len() >= 1 && resp.items[j].badges.last()
                    == badge_entry_of(nb)
            &&& forall|j1: int, j2: int|
                0 <= j1 < j2 < resp.items.len() ==> !((#[trigger] resp.items[j1]).project == (
                #[trigger] resp.items[j2]).project && resp.items[j1].change
                    == resp.items[j2].change)
        }),
{
    let parts = split_path_spec(b.project)->0;
    let stream = parts.0;
    let name = parts.1;
    lemma_resolve_or_create_wf(s, stream, name);
    crate::store::lemma_submit_badge_wf(s, b, now);
    let pid = resolve_or_create_spec(s, stream, name).0;
    let s1 = resolve_or_create_spec(s, stream, name).1;
    let s2 = submit_badge_spec(s, b, now)->0;
    let nb = s2.badges.last();
    // The resolved project row exists in the queried state.
    lemma_find_project_spec(s.projects, stream, name);
    let ip: int = match find_project_spec(s.projects, stream, name) {
        Some(p) => {
            let k = choose|k: int|
                0 <= k < s.projects.len() && s.projects[k] == p && p.stream == stream && p.project
                    == name;
            k
        },
        None => s.projects.len() as int,
    };
    assert(0 <= ip < s2.projects.len());
    assert(s2.projects[ip].project_id == pid && s2.projects[ip].stream == stream
        && s2.projects[ip].project == name);
    // It is a candidate of the query.
    lemma_candidates_sub(s2.projects, stream, Some(name));
    let cps = candidate_projects(s2.projects, stream, Some(name));
    assert(project_in_query(s2.projects[ip], stream, Some(name)));
    assert(cps.contains(s2.projects[ip]));
    let k = choose|k: int| 0 <= k < cps.len() && cps[k] == s2.projects[ip];
    // The new badge row passes the filter.
    let bi = s2.badges.len() - 1;
    assert(s2.badges[bi] == nb);
    assert(crate::query::badge_in_filter(nb, cps[k].project_id, b.change_number, None, None));
    lemma_badge_row_in_query(s2, stream, Some(name), b.change_number, None, None, k, bi);
    // Its record's badge list ends with the new badge's entry.
    let fb = project_badges_spec(s2, cps[k], b.change_number, None, None);
    assert(s2.badges.drop_last() =~= s1.badges);
    assert(fb == filtered_badges(s1.badges, pid, b.change_number, None, None).push(nb));
    assert(fb.last() == nb && fb.len() >= 1);
    assert(badge_entries_for(fb, b.change_number).last() == badge_entry_of(nb));
    assert(badge_entries_for(fb, b.change_number).len() >= 1);
    // No two records of the answer share (project path, changelist).
    assert(wf(s2));
    assert forall|k2: int| 0 <= k2 < cps.len() implies (#[trigger] cps[k2]).stream == stream by {
        assert(project_in_query(cps[k2], stream, Some(name)));
    }
    lemma_candidates_distinct(s2.projects, stream, Some(name));
    lemma_items_unique(s2, stream, cps, b.change_number, None, None);
}

/// The largest sequence number of a row set dominates every row.
pub proof fn lemma_max_badges_ge(bs: Seq<BadgeModel>)
    ensures
        forall|j: int| 0 <= j < bs.len() ==> max_seq_of_badges(bs) >= (#[trigger] bs[j]).sequence,
    decreases bs.len(),
{
    if bs.len() > 0 {
        lemma_max_badges_ge(bs.drop_last());
        assert forall|j: int| 0 <= j < bs.len() implies max_seq_of_badges(bs) >= (
        #[trigger] bs[j]).sequence by {
            if j < bs.len() - 1 {
                assert(bs.drop_last()[j] == bs[j]);
            }
        }
    }
}

/// The largest sequence number of a row set dominates every row.
pub proof fn lemma_max_events_ge(es: Seq<UserEventModel>)
    ensures
        forall|j: int|
            0 <= j < es.len() ==> max_seq_of_events(es) >= (#[trigger] es[j]).sequence,
    decreases es.len(),
{
    if es.len() > 0 {
        lemma_max_events_ge(es.drop_last());
        assert forall|j: int| 0 <= j < es.len() implies max_seq_of_events(es) >= (
        #[trigger] es[j]).sequence by {
            if j < es.len() - 1 {
                assert(es.drop_last()[j] == es[j]);
            }
        }
    }
}

/// The answer's cursor dominates every candidate project's row maxima.
pub proof fn lemma_max_seq_spec_ge_project(
    s: StoreModel,
    cps: Seq<ProjectModel>,
    minchange: i64,
    maxchange: Option<i64>,
    since: Option<i64>,
    k: int,
)
    requires
        0 <= k < cps.len(),
    ensures
        max_seq_spec(s, cps, minchange, maxchange, since) >= max_seq_of_badges(
            project_badges_spec(s, cps[k], minchange, maxchange, since),
        ),
        max_seq_spec(s, cps, minchange, maxchange, since) >= max_seq_of_events(
            project_events_spec(s, cps[k], minchange, maxchange, since),
        ),
    decreases cps.len(),
{
    if k == cps.len() - 1 {
        assert(cps[k] == cps.last());
    } else {
        assert(cps.drop_last()[k] == cps[k]);
        lemma_max_seq_spec_ge_project(s, cps.drop_last(), minchange, maxchange, since, k);
    }
}

/// Monotonic cursor, first half: the cursor of an answer is at least the
/// sequence number of every row that contributed to it.
pub proof fn lemma_cursor_dominates(
    s: StoreModel,
    stream: Seq<char>,
    pv: Option<Seq<char>>,
    minchange: i64,
    maxchange: Option<i64>,
    since: Option<i64>,
)
    ensures
        ({
            let cps = candidate_projects(s.projects, stream, pv);
            let m = query_spec(s, stream, pv, minchange, maxchange, since).sequence_number;
            &&& forall|k: int, bi: int|
                0 <= k < cps.len() && 0 <= bi < s.badges.len() && crate::query::badge_in_filter(
                    #[trigger] s.badges[bi],
                    (#[trigger] cps[k]).project_id,
                    minchange,
                    maxchange,
                    since,
                ) ==> m >= s.badges[bi].sequence
            &&& forall|k: int, ei: int|
                0 <= k < cps.len() && 0 <= ei < s.user_events.len()
                    && crate::query::event_in_filter(
                    #[trigger] s.user_events[ei],
                    (#[trigger] cps[k]).project_id,
                    minchange,
                    maxchange,
                    since,
                ) ==> m >= s.user_events[ei].sequence
        }),
{
    let cps = candidate_projects(s.projects, stream, pv);
    let m = query_spec(s, stream, pv, minchange, maxchange, since).sequence_number;
    assert forall|k: int, bi: int|
        0 <= k < cps.len() && 0 <= bi < s.badges.len() && crate::query::badge_in_filter(
            #[trigger] s.badges[bi],
            (#[trigger] cps[k]).project_id,
            minchange,
            maxchange,
            since,
        ) implies m >= s.badges[bi].sequence by {
        let fb = project_badges_spec(s, cps[k], minchange, maxchange, since);
        lemma_filtered_badges_membership(s.badges, cps[k].project_id, minchange, maxchange, since);
        assert(fb.contains(s.badges[bi]));
        let j = choose|j: int| 0 <= j < fb.len() && fb[j] == s.badges[bi];
        lemma_max_badges_ge(fb);
        lemma_max_seq_spec_ge_project(s, cps, minchange, maxchange, since, k);
    }
    assert forall|k: int, ei: int|
        0 <= k < cps.len() && 0 <= ei < s.user_events.len() && crate::query::event_in_filter(
            #[trigger] s.user_events[ei],
            (#[trigger] cps[k]).project_id,
            minchange,
            maxchange,
            since,
        ) implies m >= s.user_events[ei].sequence by {
        let fe = project_events_spec(s, cps[k], minchange, maxchange, since);
        lemma_filtered_events_membership(s.user_events, cps[k].project_id, minchange, maxchange, since);
        assert(fe.contains(s.user_events[ei]));
        let j = choose|j: int| 0 <= j < fe.len() && fe[j] == s.user_events[ei];
        lemma_max_events_ge(fe);
        lemma_max_seq_spec_ge_project(s, cps, minchange, maxchange, since, k);
    }
}

/// A filter no row passes keeps nothing.
pub proof fn lemma_filtered_badges_empty(
    bs: Seq<BadgeModel>,
    pid: i64,
    minchange: i64,
    maxchange: Option<i64>,
    since: Option<i64>,
)
    requires
        forall|i: int|
            0 <= i < bs.len() ==> !crate::query::badge_in_filter(
                #[trigger] bs[i],
                pid,
                minchange,
                maxchange,
                since,
            ),
    ensures
        filtered_badges(bs, pid, minchange, maxchange, since) == Seq::<BadgeModel>::empty(),
    decreases bs.len(),
{
    if bs.len() > 0 {
        assert forall|i: int| 0 <= i < bs.drop_last().len() implies !crate::query::badge_in_filter(
            #[trigger] bs.drop_last()[i],
            pid,
            minchange,
            maxchange,
            since,
        ) by {
            assert(bs.drop_last()[i] == bs[i]);
        }
        lemma_filtered_badges_empty(bs.drop_last(), pid, minchange, maxchange, since);
        assert(!crate::query::badge_in_filter(bs[bs.len() - 1], pid, minchange, maxchange, since));
    }
}

/// A filter no row passes keeps nothing.
pub proof fn lemma_filtered_events_empty(
    es: Seq<UserEventModel>,
    pid: i64,
    minchange: i64,
    maxchange: Option<i64>,
    since: Option<i64>,
)
    requires
        forall|i: int|
            0 <= i < es.len() ==> !crate::query::event_in_filter(
                #[trigger] es[i],
                pid,
                minchange,
                maxchange,
                since,
            ),
    ensures
        filtered_events(es, pid, minchange, maxchange, since) == Seq::<UserEventModel>::empty(),
    decreases es.len(),
{
    if es.len() > 0 {
        assert forall|i: int| 0 <= i < es.drop_last().len() implies !crate::query::event_in_filter(
            #[trigger] es.drop_last()[i],
            pid,
            minchange,
            maxchange,
            since,
        ) by {
            assert(es.drop_last()[i] == es[i]);
        }
        lemma_filtered_events_empty(es.drop_last(), pid, minchange, maxchange, since);
        assert(!crate::query::event_in_filter(es[es.len() - 1], pid, minchange, maxchange, since));
    }
}

/// A query whose filters keep no row of any candidate answers with no items
/// and a zero cursor.
pub proof fn lemma_query_empty(
    s: StoreModel,
    stream: Seq<char>,
    cps: Seq<ProjectModel>,
    minchange: i64,
    maxchange: Option<i64>,
    since: Option<i64>,
)
    requires
        forall|k: int|
            0 <= k < cps.len() ==> project_badges_spec(
                s,
                #[trigger] cps[k],
                minchange,
                maxchange,
                since,
            ) == Seq::<BadgeModel>::empty() && project_events_spec(
                s,
                cps[k],
                minchange,
                maxchange,
                since,
            ) == Seq::<UserEventModel>::empty(),
    ensures
        crate::query::items_spec(s, stream, cps, minchange, maxchange, since) == Seq::<
            crate::models::RecordModel,
        >::empty(),
        max_seq_spec(s, cps, minchange, maxchange, since) == 0,
    decreases cps.len(),
{
    if cps.len() > 0 {
        assert forall|k: int| 0 <= k < cps.drop_last().len() implies project_badges_spec(
            s,
            #[trigger] cps.drop_last()[k],
            minchange,
            maxchange,
            since,
        ) == Seq::<BadgeModel>::empty() && project_events_spec(
            s,
            cps.drop_last()[k],
            minchange,
            maxchange,
            since,
        ) == Seq::<UserEventModel>::empty() by {
            assert(cps.drop_last()[k] == cps[k]);
        }
        lemma_query_empty(s, stream, cps.drop_last(), minchange, maxchange, since);
        let p = cps.last();
        assert(cps[cps.len() - 1] == p);
        let fb = project_badges_spec(s, p, minchange, maxchange, since);
        let fe = project_events_spec(s, p, minchange, maxchange, since);
        assert(fb.map_values(|b: BadgeModel| b.change_number) =~= Seq::<i64>::empty());
        assert(fe.map_values(|e: UserEventModel| e.change_number) =~= Seq::<i64>::empty());
        assert(fb.map_values(|b: BadgeModel| b.change_number) + fe.map_values(
            |e: UserEventModel| e.change_number,
        ) =~= Seq::<i64>::empty());
        assert(changes_of_rows(fb, fe) =~= Seq::<i64>::empty());
        assert(records_for_project(path_of(stream, p.project), fb, fe) =~= Seq::<
            crate::models::RecordModel,
        >::empty());
        assert(crate::query::items_spec(s, stream, cps, minchange, maxchange, since) =~= Seq::<
            crate::models::RecordModel,
        >::empty());
    }
}

/// Monotonic cursor, second half: re-querying with the cursor a full query
/// answered — one whose since-filter excluded nothing — returns no items and
/// a zero cursor, until a new write occurs.
pub proof fn lemma_cursor_requery_empty(
    s: StoreModel,
    stream: Seq<char>,
    pv: Option<Seq<char>>,
    minchange: i64,
    maxchange: Option<i64>,
    since1: Option<i64>,
)
    requires
        wf(s),
        since1 is None || since1 == Some(0i64),
    ensures
        ({
            let m = query_spec(s, stream, pv, minchange, maxchange, since1).sequence_number;
            let resp2 = query_spec(s, stream, pv, minchange, maxchange, Some(m));
            resp2.items.len() == 0 && resp2.sequence_number == 0
        }),
{
    let cps = candidate_projects(s.projects, stream, pv);
    let m = query_spec(s, stream, pv, minchange, maxchange, since1).sequence_number;
    lemma_cursor_dominates(s, stream, pv, minchange, maxchange, since1);
    assert forall|k: int| 0 <= k < cps.len() implies project_badges_spec(
        s,
        #[trigger] cps[k],
        minchange,
        maxchange,
        Some(m),
    ) == Seq::<BadgeModel>::empty() && project_events_spec(
        s,
        cps[k],
        minchange,
        maxchange,
        Some(m),
    ) == Seq::<UserEventModel>::empty() by {
        assert forall|i: int| 0 <= i < s.badges.len() implies !crate::query::badge_in_filter(
            #[trigger] s.badges[i],
            cps[k].project_id,
            minchange,
            maxchange,
            Some(m),
        ) by {
            if crate::query::badge_in_filter(
                s.badges[i],
                cps[k].project_id,
                minchange,
                maxchange,
                Some(m),
            ) {
                assert(s.badges[i].sequence >= 1);
                assert(crate::query::badge_in_filter(
                    s.badges[i],
                    cps[k].project_id,
                    minchange,
                    maxchange,
                    since1,
                ));
                assert(m >= s.badges[i].sequence);
            }
        }
        assert forall|i: int| 0 <= i < s.user_events.len() implies !crate::query::event_in_filter(
            #[trigger] s.user_events[i],
            cps[k].project_id,
            minchange,
            maxchange,
            Some(m),
        ) by {
            if crate::query::event_in_filter(
                s.user_events[i],
                cps[k].project_id,
                minchange,
                maxchange,
                Some(m),
            ) {
                assert(s.user_events[i].sequence >= 1);
                assert(crate::query::event_in_filter(
                    s.user_events[i],
                    cps[k].project_id,
                    minchange,
                    maxchange,
                    since1,
                ));
                assert(m >= s.user_events[i].sequence);
            }
        }
        lemma_filtered_badges_empty(s.badges, cps[k].project_id, minchange, maxchange, Some(m));
        lemma_filtered_events_empty(s.user_events, cps[k].project_id, minchange, maxchange, Some(m));
    }
    lemma_query_empty(s, stream, cps, minchange, maxchange, Some(m));
}

/// An event row that carries the looked-up triple is at the index the lookup
/// returns, provided triples are unique.
pub proof fn lemma_find_unique_event(
    events: Seq<UserEventModel>,
    pid: i64,
    user: Seq<char>,
    change: i64,
    k: int,
)
    requires
        0 <= k < events.len(),
        events[k].project_id == pid,
        events[k].user_name == user,
        events[k].change_number == change,
        forall|i: int, j: int|
            0 <= i < j < events.len() ==> !(events[i].project_id == events[j].project_id
                && events[i].user_name == events[j].user_name && events[i].change_number
                == events[j].change_number),
    ensures
        find_event_spec(events, pid, user, change) == Some(k),
{
    lemma_find_event_spec(events, pid, user, change);
    match find_event_spec(events, pid, user, change) {
        Some(i) => {
            if i != k {
                if i < k {
                    assert(!(events[i].project_id == events[k].project_id && events[i].user_name
                        == events[k].user_name && events[i].change_number
                        == events[k].change_number));
                } else {
                    assert(!(events[k].project_id == events[i].project_id && events[k].user_name
                        == events[i].user_name && events[k].change_number
                        == events[i].change_number));
                }
            }
        },
        None => {
            assert(!(events[k].project_id == pid && events[k].user_name == user
                && events[k].change_number == change));
        },
    }
}

} // verus!
