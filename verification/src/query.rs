//! The aggregation engine: given a stream (and optional project name and
//! changelist/sequence filters), fold the matching badge and user-event rows
//! into one aggregate record per (project, changelist), and report the
//! largest sequence number seen as the caller's next synchronization cursor.

use vstd::prelude::*;

verus! {

use crate::models::{
    Badge, BadgeEntryModel, BadgeModel, GetBadgeDataResponseV2, GetMetadataListResponseV2,
    GetMetadataResponseV2, GetUserDataResponseV2, MetadataIndexParams, ProjectModel,
    UserEntryModel, UserEvent, UserEventModel,
};
use crate::paths::{lower_of, normalize_project_name, normalize_stream, normalize_stream_spec,
    path_of};
use crate::store::{wf, MetadataStore, StoreModel, MAX_TIMESTAMP_MICROS};

/// Whether a badge row passes the query filter for one project.
pub open spec fn badge_in_filter(
    b: BadgeModel,
    pid: i64,
    minchange: i64,
    maxchange: Option<i64>,
    since: Option<i64>,
) -> bool {
    &&& b.project_id == pid
    &&& b.change_number >= minchange
    &&& match maxchange {
        Some(m) => b.change_number <= m,
        None => true,
    }
    &&& match since {
        Some(q) => b.sequence > q,
        None => true,
    }
}

/// Whether a user-event row passes the query filter for one project.
pub open spec fn event_in_filter(
    e: UserEventModel,
    pid: i64,
    minchange: i64,
    maxchange: Option<i64>,
    since: Option<i64>,
) -> bool {
    &&& e.project_id == pid
    &&& e.change_number >= minchange
    &&& match maxchange {
        Some(m) => e.change_number <= m,
        None => true,
    }
    &&& match since {
        Some(q) => e.sequence > q,
        None => true,
    }
}

/// The badge rows passing the filter, in table (that is, write) order.
pub open spec fn filtered_badges(
    badges: Seq<BadgeModel>,
    pid: i64,
    minchange: i64,
    maxchange: Option<i64>,
    since: Option<i64>,
) -> Seq<BadgeModel>
    decreases badges.len(),
{
    if badges.len() == 0 {
        Seq::empty()
    } else {
        let rest = filtered_badges(badges.drop_last(), pid, minchange, maxchange, since);
        if badge_in_filter(badges.last(), pid, minchange, maxchange, since) {
            rest.push(badges.last())
        } else {
            rest
        }
    }
}

/// The user-event rows passing the filter, in table (write) order.
pub open spec fn filtered_events(
    events: Seq<UserEventModel>,
    pid: i64,
    minchange: i64,
    maxchange: Option<i64>,
    since: Option<i64>,
) -> Seq<UserEventModel>
    decreases events.len(),
{
    if events.len() == 0 {
        Seq::empty()
    } else {
        let rest = filtered_events(events.drop_last(), pid, minchange, maxchange, since);
        if event_in_filter(events.last(), pid, minchange, maxchange, since) {
            rest.push(events.last())
        } else {
            rest
        }
    }
}

/// Whether a project is a candidate of the query: its stream matches, and
/// its name too when one is given.
pub open spec fn project_in_query(p: ProjectModel, stream: Seq<char>, name: Option<Seq<char>>) -> bool {
    &&& p.stream == stream
    &&& match name {
        Some(n) => p.project == n,
        None => true,
    }
}

/// The candidate projects of the query, in table order.
pub open spec fn candidate_projects(
    projects: Seq<ProjectModel>,
    stream: Seq<char>,
    name: Option<Seq<char>>,
) -> Seq<ProjectModel>
    decreases projects.len(),
{
    if projects.len() == 0 {
        Seq::empty()
    } else {
        let rest = candidate_projects(projects.drop_last(), stream, name);
        if project_in_query(projects.last(), stream, name) {
            rest.push(projects.last())
        } else {
            rest
        }
    }
}

/// The wire entry a badge row contributes to its record.
pub open spec fn badge_entry_of(b: BadgeModel) -> BadgeEntryModel {
    BadgeEntryModel { name: b.build_type, url: b.url, state: b.result }
}

/// The wire entry a user-event row contributes to its record. The sync time
/// is reported in tenths of a microsecond.
pub open spec fn user_entry_of(e: UserEventModel) -> UserEntryModel {
    UserEntryModel {
        user: e.user_name,
        sync_time: match e.synced_at {
            Some(t) => Some((t * 10) as i64),
            None => None,
        },
        vote: e.vote,
        comment: e.comment,
        investigating: e.investigating,
        starred: e.starred,
    }
}

/// Each value's first occurrence, in order of first appearance.
pub open spec fn first_occurrences(s: Seq<i64>) -> Seq<i64>
    decreases s.len(),
{
    if s.len() == 0 {
        Seq::empty()
    } else {
        let rest = first_occurrences(s.drop_last());
        if rest.contains(s.last()) {
            rest
        } else {
            rest.push(s.last())
        }
    }
}

/// The changelists a record is made for: each distinct changelist among the
/// filtered rows, badges first, in order of first appearance.
pub open spec fn changes_of_rows(bs: Seq<BadgeModel>, es: Seq<UserEventModel>) -> Seq<i64> {
    first_occurrences(
        bs.map_values(|b: BadgeModel| b.change_number) + es.map_values(
            |e: UserEventModel| e.change_number,
        ),
    )
}

/// The badge entries of one changelist, in row (write) order.
pub open spec fn badge_entries_for(bs: Seq<BadgeModel>, c: i64) -> Seq<BadgeEntryModel>
    decreases bs.len(),
{
    if bs.len() == 0 {
        Seq::empty()
    } else {
        let rest = badge_entries_for(bs.drop_last(), c);
        if bs.last().change_number == c {
            rest.push(badge_entry_of(bs.last()))
        } else {
            rest
        }
    }
}

/// The user entries of one changelist, in row (write) order.
pub open spec fn user_entries_for(es: Seq<UserEventModel>, c: i64) -> Seq<UserEntryModel>
    decreases es.len(),
{
    if es.len() == 0 {
        Seq::empty()
    } else {
        let rest = user_entries_for(es.drop_last(), c);
        if es.last().change_number == c {
            rest.push(user_entry_of(es.last()))
        } else {
            rest
        }
    }
}

/// The aggregate record of one (project path, changelist) pair.
pub open spec fn record_for(
    path: Seq<char>,
    bs: Seq<BadgeModel>,
    es: Seq<UserEventModel>,
    c: i64,
) -> crate::models::RecordModel {
    crate::models::RecordModel {
        change: c,
        project: path,
        users: user_entries_for(es, c),
        badges: badge_entries_for(bs, c),
    }
}

/// All aggregate records of one project: one per distinct changelist among
/// its filtered rows.
pub open spec fn records_for_project(
    path: Seq<char>,
    bs: Seq<BadgeModel>,
    es: Seq<UserEventModel>,
) -> Seq<crate::models::RecordModel> {
    changes_of_rows(bs, es).map_values(|c: i64| record_for(path, bs, es, c))
}

/// The larger of two sequence numbers.
pub open spec fn max_i64(a: i64, b: i64) -> i64 {
    if a >= b {
        a
    } else {
        b
    }
}

/// The largest sequence number among a row set, or zero.
pub open spec fn max_seq_of_badges(bs: Seq<BadgeModel>) -> i64
    decreases bs.len(),
{
    if bs.len() == 0 {
        0
    } else {
        max_i64(max_seq_of_badges(bs.drop_last()), bs.last().sequence)
    }
}

/// The largest sequence number among a row set, or zero.
pub open spec fn max_seq_of_events(es: Seq<UserEventModel>) -> i64
    decreases es.len(),
{
    if es.len() == 0 {
        0
    } else {
        max_i64(max_seq_of_events(es.drop_last()), es.last().sequence)
    }
}

/// The filtered badge rows of one candidate project.
pub open spec fn project_badges_spec(
    s: StoreModel,
    p: ProjectModel,
    minchange: i64,
    maxchange: Option<i64>,
    since: Option<i64>,
) -> Seq<BadgeModel> {
    filtered_badges(s.badges, p.project_id, minchange, maxchange, since)
}

/// The filtered user-event rows of one candidate project.
pub open spec fn project_events_spec(
    s: StoreModel,
    p: ProjectModel,
    minchange: i64,
    maxchange: Option<i64>,
    since: Option<i64>,
) -> Seq<UserEventModel> {
    filtered_events(s.user_events, p.project_id, minchange, maxchange, since)
}

/// The records of one candidate project, under its `<stream>/<name>` path.
pub open spec fn project_records_spec(
    s: StoreModel,
    stream: Seq<char>,
    p: ProjectModel,
    minchange: i64,
    maxchange: Option<i64>,
    since: Option<i64>,
) -> Seq<crate::models::RecordModel> {
    records_for_project(
        path_of(stream, p.project),
        project_badges_spec(s, p, minchange, maxchange, since),
        project_events_spec(s, p, minchange, maxchange, since),
    )
}

/// All records of the query: each candidate project's records, concatenated
/// in project-table order.
pub open spec fn items_spec(
    s: StoreModel,
    stream: Seq<char>,
    cps: Seq<ProjectModel>,
    minchange: i64,
    maxchange: Option<i64>,
    since: Option<i64>,
) -> Seq<crate::models::RecordModel>
    decreases cps.len(),
{
    if cps.len() == 0 {
        Seq::empty()
    } else {
        items_spec(s, stream, cps.drop_last(), minchange, maxchange, since)
            + project_records_spec(s, stream, cps.last(), minchange, maxchange, since)
    }
}

/// The largest sequence number among every filtered row of every candidate
/// project, or zero when nothing matches.
pub open spec fn max_seq_spec(
    s: StoreModel,
    cps: Seq<ProjectModel>,
    minchange: i64,
    maxchange: Option<i64>,
    since: Option<i64>,
) -> i64
    decreases cps.len(),
{
    if cps.len() == 0 {
        0
    } else {
        max_i64(
            max_seq_spec(s, cps.drop_last(), minchange, maxchange, since),
            max_i64(
                max_seq_of_badges(project_badges_spec(s, cps.last(), minchange, maxchange, since)),
                max_seq_of_events(project_events_spec(s, cps.last(), minchange, maxchange, since)),
            ),
        )
    }
}

/// What an aggregate metadata query answers, after its raw stream and
/// project parameters are normalized.
pub open spec fn query_spec(
    s: StoreModel,
    stream: Seq<char>,
    project: Option<Seq<char>>,
    minchange: i64,
    maxchange: Option<i64>,
    since: Option<i64>,
) -> crate::models::ListModel {
    let cps = candidate_projects(s.projects, stream, project);
    crate::models::ListModel {
        sequence_number: max_seq_spec(s, cps, minchange, maxchange, since),
        items: items_spec(s, stream, cps, minchange, maxchange, since),
    }
}

/// How the raw query parameters are normalized before the query runs.
pub open spec fn normalized_project_param(p: Option<Seq<char>>) -> Option<Seq<char>> {
    match p {
        Some(n) => Some(lower_of(n)),
        None => None,
    }
}

/// Whether a sequence of numbers holds a given one.
fn contains_i64(v: &Vec<i64>, x: i64) -> (r: bool)
    ensures
        r == v@.contains(x),
{
    let mut i: usize = 0;
    while i < v.len()
        invariant
            i <= v.len(),
            forall|k: int| 0 <= k < i ==> v@[k] != x,
        decreases v.len() - i,
    {
        if v[i] == x {
            proof {
                assert(v@.contains(x));
            }
            return true;
        }
        i = i + 1;
    }
    proof {
        assert(!v@.contains(x));
    }
    false
}

impl MetadataStore {
    /// Fetch the badge rows of one project that pass the filter, in write
    /// order.
    fn collect_badges(
        &self,
        pid: i64,
        minchange: i64,
        maxchange: Option<i64>,
        since: Option<i64>,
    ) -> (r: Vec<Badge>)
        ensures
            r.deep_view() == filtered_badges(self@.badges, pid, minchange, maxchange, since),
    {
        let ghost bs = self@.badges;
        let mut out: Vec<Badge> = Vec::new();
        proof {
            assert(bs.take(0) =~= Seq::<BadgeModel>::empty());
            assert(out.deep_view() =~= filtered_badges(bs.take(0), pid, minchange, maxchange, since));
        }
        let mut i: usize = 0;
        while i < self.badges.len()
            invariant
                i <= self.badges.len(),
                bs == self@.badges,
                bs.len() == self.badges.len(),
                out.deep_view() == filtered_badges(bs.take(i as int), pid, minchange, maxchange, since),
            decreases self.badges.len() - i,
        {
            let b = &self.badges[i];
            proof {
                assert(bs.take(i as int + 1).drop_last() =~= bs.take(i as int));
                assert(bs.take(i as int + 1).last() == bs[i as int]);
                assert(bs[i as int] == self.badges@[i as int].deep_view());
            }
            let keep = b.project_id == pid && b.change_number >= minchange && (match maxchange {
                Some(m) => b.change_number <= m,
                None => true,
            }) && (match since {
                Some(q) => b.sequence > q,
                None => true,
            });
            if keep {
                let copy = Badge {
                    sequence: b.sequence,
                    change_number: b.change_number,
                    added_at: b.added_at,
                    build_type: b.build_type.clone(),
                    result: b.result,
                    url: b.url.clone(),
                    project_id: b.project_id,
                };
                proof {
                    assert(copy.deep_view() == bs[i as int]);
                }
                out.push(copy);
            }
            proof {
                assert(out.deep_view() =~= filtered_badges(
                    bs.take(i as int + 1),
                    pid,
                    minchange,
                    maxchange,
                    since,
                ));
            }
            i = i + 1;
        }
        proof {
            assert(bs.take(i as int) =~= bs);
        }
        out
    }

    /// Fetch the user-event rows of one project that pass the filter, in
    /// write order. Their sync timestamps keep the store's bound.
    fn collect_events(
        &self,
        pid: i64,
        minchange: i64,
        maxchange: Option<i64>,
        since: Option<i64>,
    ) -> (r: Vec<UserEvent>)
        requires
            wf(self@),
        ensures
            r.deep_view() == filtered_events(self@.user_events, pid, minchange, maxchange, since),
            forall|i: int|
                0 <= i < r.deep_view().len() ==> match (#[trigger] r.deep_view()[i]).synced_at {
                    Some(t) => 0 <= t <= MAX_TIMESTAMP_MICROS,
                    None => true,
                },
    {
        let ghost es = self@.user_events;
        let mut out: Vec<UserEvent> = Vec::new();
        proof {
            assert(es.take(0) =~= Seq::<UserEventModel>::empty());
            assert(out.deep_view() =~= filtered_events(es.take(0), pid, minchange, maxchange, since));
        }
        let mut i: usize = 0;
        while i < self.user_events.len()
            invariant
                i <= self.user_events.len(),
                es == self@.user_events,
                es.len() == self.user_events.len(),
                wf(self@),
                out.deep_view() == filtered_events(es.take(i as int), pid, minchange, maxchange, since),
                forall|k: int|
                    0 <= k < out.deep_view().len() ==> match (
                    #[trigger] out.deep_view()[k]).synced_at {
                        Some(t) => 0 <= t <= MAX_TIMESTAMP_MICROS,
                        None => true,
                    },
            decreases self.user_events.len() - i,
        {
            let e = &self.user_events[i];
            proof {
                assert(es.take(i as int + 1).drop_last() =~= es.take(i as int));
                assert(es.take(i as int + 1).last() == es[i as int]);
                assert(es[i as int] == self.user_events@[i as int].deep_view());
            }
            let keep = e.project_id == pid && e.change_number >= minchange && (match maxchange {
                Some(m) => e.change_number <= m,
                None => true,
            }) && (match since {
                Some(q) => e.sequence > q,
                None => true,
            });
            if keep {
                let copy = UserEvent {
                    id: e.id,
                    project_id: e.project_id,
                    change_number: e.change_number,
                    user_name: e.user_name.clone(),
                    sequence: e.sequence,
                    updated_at: e.updated_at,
                    synced_at: e.synced_at,
                    vote: e.vote,
                    starred: e.starred,
                    investigating: e.investigating,
                    comment: match &e.comment {
                        Some(c) => Some(c.clone()),
                        None => None,
                    },
                };
                proof {
                    assert(copy.deep_view() == es[i as int]);
                }
                out.push(copy);
            }
            proof {
                assert(out.deep_view() =~= filtered_events(
                    es.take(i as int + 1),
                    pid,
                    minchange,
                    maxchange,
                    since,
                ));
            }
            i = i + 1;
        }
        proof {
            assert(es.take(i as int) =~= es);
        }
        out
    }
}

/// The largest sequence number among the fetched badge rows, or zero.
fn max_badge_seq_vec(fb: &Vec<Badge>) -> (r: i64)
    ensures
        r == max_seq_of_badges(fb.deep_view()),
{
    let ghost bs = fb.deep_view();
    let mut m: i64 = 0;
    let mut i: usize = 0;
    proof {
        assert(bs.take(0) =~= Seq::<BadgeModel>::empty());
    }
    while i < fb.len()
        invariant
            i <= fb.len(),
            bs == fb.deep_view(),
            bs.len() == fb.len(),
            m == max_seq_of_badges(bs.take(i as int)),
        decreases fb.len() - i,
    {
        proof {
            assert(bs.take(i as int + 1).drop_last() =~= bs.take(i as int));
            assert(bs.take(i as int + 1).last() == bs[i as int]);
            assert(bs[i as int] == fb@[i as int].deep_view());
        }
        let b = &fb[i];
        if b.sequence > m {
            m = b.sequence;
        }
        i = i + 1;
    }
    proof {
        assert(bs.take(i as int) =~= bs);
    }
    m
}

/// The largest sequence number among the fetched user-event rows, or zero.
fn max_event_seq_vec(fe: &Vec<UserEvent>) -> (r: i64)
    ensures
        r == max_seq_of_events(fe.deep_view()),
{
    let ghost es = fe.deep_view();
    let mut m: i64 = 0;
    let mut i: usize = 0;
    proof {
        assert(es.take(0) =~= Seq::<UserEventModel>::empty());
    }
    while i < fe.len()
        invariant
            i <= fe.len(),
            es == fe.deep_view(),
            es.len() == fe.len(),
            m == max_seq_of_events(es.take(i as int)),
        decreases fe.len() - i,
    {
        proof {
            assert(es.take(i as int + 1).drop_last() =~= es.take(i as int));
            assert(es.take(i as int + 1).last() == es[i as int]);
            assert(es[i as int] == fe@[i as int].deep_view());
        }
        let e = &fe[i];
        if e.sequence > m {
            m = e.sequence;
        }
        i = i + 1;
    }
    proof {
        assert(es.take(i as int) =~= es);
    }
    m
}

/// The badge entries one changelist gets, in row order.
fn badge_entries_exec(fb: &Vec<Badge>, c: i64) -> (r: Vec<GetBadgeDataResponseV2>)
    ensures
        r.deep_view() == badge_entries_for(fb.deep_view(), c),
{
    let ghost bs = fb.deep_view();
    let mut out: Vec<GetBadgeDataResponseV2> = Vec::new();
    proof {
        assert(bs.take(0) =~= Seq::<BadgeModel>::empty());
        assert(out.deep_view() =~= badge_entries_for(bs.take(0), c));
    }
    let mut i: usize = 0;
    while i < fb.len()
        invariant
            i <= fb.len(),
            bs == fb.deep_view(),
            bs.len() == fb.len(),
            out.deep_view() == badge_entries_for(bs.take(i as int), c),
        decreases fb.len() - i,
    {
        let b = &fb[i];
        proof {
            assert(bs.take(i as int + 1).drop_last() =~= bs.take(i as int));
            assert(bs.take(i as int + 1).last() == bs[i as int]);
            assert(bs[i as int] == fb@[i as int].deep_view());
        }
        if b.change_number == c {
            let entry = GetBadgeDataResponseV2 {
                name: b.build_type.clone(),
                url: b.url.clone(),
                state: b.result,
            };
            proof {
                assert(entry.deep_view() == badge_entry_of(bs[i as int]));
            }
            out.push(entry);
        }
        proof {
            assert(out.deep_view() =~= badge_entries_for(bs.take(i as int + 1), c));
        }
        i = i + 1;
    }
    proof {
        assert(bs.take(i as int) =~= bs);
    }
    out
}

/// The user entries one changelist gets, in row order.
fn user_entries_exec(fe: &Vec<UserEvent>, c: i64) -> (r: Vec<GetUserDataResponseV2>)
    requires
        forall|i: int|
            0 <= i < fe.deep_view().len() ==> match (#[trigger] fe.deep_view()[i]).synced_at {
                Some(t) => 0 <= t <= MAX_TIMESTAMP_MICROS,
                None => true,
            },
    ensures
        r.deep_view() == user_entries_for(fe.deep_view(), c),
{
    let ghost es = fe.deep_view();
    let mut out: Vec<GetUserDataResponseV2> = Vec::new();
    proof {
        assert(es.take(0) =~= Seq::<UserEventModel>::empty());
        assert(out.deep_view() =~= user_entries_for(es.take(0), c));
    }
    let mut i: usize = 0;
    while i < fe.len()
        invariant
            i <= fe.len(),
            es == fe.deep_view(),
            es.len() == fe.len(),
            forall|k: int|
                0 <= k < es.len() ==> match (#[trigger] es[k]).synced_at {
                    Some(t) => 0 <= t <= MAX_TIMESTAMP_MICROS,
                    None => true,
                },
            out.deep_view() == user_entries_for(es.take(i as int), c),
        decreases fe.len() - i,
    {
        let e = &fe[i];
        proof {
            assert(es.take(i as int + 1).drop_last() =~= es.take(i as int));
            assert(es.take(i as int + 1).last() == es[i as int]);
            assert(es[i as int] == fe@[i as int].deep_view());
        }
        if e.change_number == c {
            let entry = GetUserDataResponseV2 {
                user: e.user_name.clone(),
                sync_time: match e.synced_at {
                    Some(t) => Some(t * 10),
                    None => None,
                },
                vote: e.vote,
                comment: match &e.comment {
                    Some(s) => Some(s.clone()),
                    None => None,
                },
                investigating: e.investigating,
                starred: e.starred,
            };
            proof {
                assert(entry.deep_view() == user_entry_of(es[i as int]));
            }
            out.push(entry);
        }
        proof {
            assert(out.deep_view() =~= user_entries_for(es.take(i as int + 1), c));
        }
        i = i + 1;
    }
    proof {
        assert(es.take(i as int) =~= es);
    }
    out
}

/// The distinct changelists among the fetched rows, badges first, in order
/// of first appearance.
fn build_changes(fb: &Vec<Badge>, fe: &Vec<UserEvent>) -> (r: Vec<i64>)
    ensures
        r@ == changes_of_rows(fb.deep_view(), fe.deep_view()),
{
    let ghost bchanges = fb.deep_view().map_values(|b: BadgeModel| b.change_number);
    let ghost echanges = fe.deep_view().map_values(|e: UserEventModel| e.change_number);
    let mut out: Vec<i64> = Vec::new();
    proof {
        assert(bchanges.take(0) =~= Seq::<i64>::empty());
        assert(out@ =~= first_occurrences(bchanges.take(0)));
    }
    let mut i: usize = 0;
    while i < fb.len()
        invariant
            i <= fb.len(),
            bchanges == fb.deep_view().map_values(|b: BadgeModel| b.change_number),
            bchanges.len() == fb.len(),
            out@ == first_occurrences(bchanges.take(i as int)),
        decreases fb.len() - i,
    {
        proof {
            assert(bchanges.take(i as int + 1).drop_last() =~= bchanges.take(i as int));
            assert(bchanges.take(i as int + 1).last() == bchanges[i as int]);
            assert(bchanges[i as int] == fb.deep_view()[i as int].change_number);
            assert(fb.deep_view()[i as int] == fb@[i as int].deep_view());
        }
        let c = fb[i].change_number;
        if !contains_i64(&out, c) {
            out.push(c);
        }
        proof {
            assert(out@ =~= first_occurrences(bchanges.take(i as int + 1)));
        }
        i = i + 1;
    }
    proof {
        assert(bchanges.take(i as int) =~= bchanges);
        assert(bchanges + echanges.take(0) =~= bchanges);
    }
    let mut j: usize = 0;
    while j < fe.len()
        invariant
            j <= fe.len(),
            bchanges == fb.deep_view().map_values(|b: BadgeModel| b.change_number),
            echanges == fe.deep_view().map_values(|e: UserEventModel| e.change_number),
            echanges.len() == fe.len(),
            out@ == first_occurrences(bchanges + echanges.take(j as int)),
        decreases fe.len() - j,
    {
        proof {
            assert((bchanges + echanges.take(j as int + 1)).drop_last() =~= bchanges
                + echanges.take(j as int));
            assert((bchanges + echanges.take(j as int + 1)).last() == echanges[j as int]);
            assert(echanges[j as int] == fe.deep_view()[j as int].change_number);
            assert(fe.deep_view()[j as int] == fe@[j as int].deep_view());
        }
        let c = fe[j].change_number;
        if !contains_i64(&out, c) {
            out.push(c);
        }
        proof {
            assert(out@ =~= first_occurrences(bchanges + echanges.take(j as int + 1)));
        }
        j = j + 1;
    }
    proof {
        assert(echanges.take(j as int) =~= echanges);
        assert(bchanges + echanges.take(j as int) =~= bchanges + echanges);
    }
    out
}

/// Fold one project's fetched rows into its aggregate records: one record
/// per distinct changelist, holding that changelist's badge and user entries
/// in write order.
fn fold_records(path: &String, fb: &Vec<Badge>, fe: &Vec<UserEvent>) -> (r: Vec<
    GetMetadataResponseV2,
>)
    requires
        forall|i: int|
            0 <= i < fe.deep_view().len() ==> match (#[trigger] fe.deep_view()[i]).synced_at {
                Some(t) => 0 <= t <= MAX_TIMESTAMP_MICROS,
                None => true,
            },
    ensures
        r.deep_view() == records_for_project(path@, fb.deep_view(), fe.deep_view()),
{
    let changes = build_changes(fb, fe);
    let ghost target = records_for_project(path@, fb.deep_view(), fe.deep_view());
    proof {
        assert(target.len() == changes@.len());
    }
    let mut recs: Vec<GetMetadataResponseV2> = Vec::new();
    proof {
        assert(recs.deep_view() =~= target.take(0));
    }
    let mut k: usize = 0;
    while k < changes.len()
        invariant
            k <= changes.len(),
            changes@ == changes_of_rows(fb.deep_view(), fe.deep_view()),
            target == records_for_project(path@, fb.deep_view(), fe.deep_view()),
            target.len() == changes@.len(),
            forall|i: int|
                0 <= i < fe.deep_view().len() ==> match (#[trigger] fe.deep_view()[i]).synced_at {
                    Some(t) => 0 <= t <= MAX_TIMESTAMP_MICROS,
                    None => true,
                },
            recs.deep_view() == target.take(k as int),
        decreases changes.len() - k,
    {
        let c = changes[k];
        let badges_list = badge_entries_exec(fb, c);
        let users_list = user_entries_exec(fe, c);
        let rec = GetMetadataResponseV2 {
            change: c,
            project: path.clone(),
            users: users_list,
            badges: badges_list,
        };
        proof {
            assert(rec.deep_view() == record_for(
                path@,
                fb.deep_view(),
                fe.deep_view(),
                changes@[k as int],
            ));
            assert(target[k as int] == record_for(
                path@,
                fb.deep_view(),
                fe.deep_view(),
                changes@[k as int],
            ));
        }
        recs.push(rec);
        proof {
            assert(target.take(k as int + 1) =~= target.take(k as int).push(target[k as int]));
            assert(recs.deep_view() =~= target.take(k as int + 1));
        }
        k = k + 1;
    }
    proof {
        assert(target.take(k as int) =~= target);
    }
    recs
}

impl MetadataStore {
    /// Answer an aggregate metadata query: normalize the stream and optional
    /// project name, fetch each candidate project's filtered badge and
    /// user-event rows in write order, fold them into one record per
    /// (project, changelist), and report the largest sequence number seen —
    /// zero when nothing matched — as the next synchronization cursor.
    pub fn metadata_query(&self, params: &MetadataIndexParams) -> (r: GetMetadataListResponseV2)
        requires
            wf(self@),
        ensures
            r@ == query_spec(
                self@,
                normalize_stream_spec(params.stream@),
                normalized_project_param(params.project.deep_view()),
                params.minchange,
                params.maxchange,
                params.sequence,
            ),
    {
        let stream = normalize_stream(params.stream.as_str());
        let project_n: Option<String> = match &params.project {
            Some(p) => Some(normalize_project_name(p.as_str())),
            None => None,
        };
        let ghost sv = normalize_stream_spec(params.stream@);
        let ghost pv = normalized_project_param(params.project.deep_view());
        proof {
            assert(project_n.deep_view() == pv);
        }
        let ghost ps = self@.projects;
        let minchange = params.minchange;
        let maxchange = params.maxchange;
        let since = params.sequence;
        let mut items: Vec<GetMetadataResponseV2> = Vec::new();
        let mut max_seq: i64 = 0;
        proof {
            assert(ps.take(0) =~= Seq::<ProjectModel>::empty());
            assert(items.deep_view() =~= items_spec(
                self@,
                sv,
                candidate_projects(ps.take(0), sv, pv),
                minchange,
                maxchange,
                since,
            ));
        }
        let mut i: usize = 0;
        while i < self.projects.len()
            invariant
                i <= self.projects.len(),
                ps == self@.projects,
                ps.len() == self.projects.len(),
                wf(self@),
                stream@ == sv,
                project_n.deep_view() == pv,
                minchange == params.minchange,
                maxchange == params.maxchange,
                since == params.sequence,
                items.deep_view() == items_spec(
                    self@,
                    sv,
                    candidate_projects(ps.take(i as int), sv, pv),
                    minchange,
                    maxchange,
                    since,
                ),
                max_seq == max_seq_spec(
                    self@,
                    candidate_projects(ps.take(i as int), sv, pv),
                    minchange,
                    maxchange,
                    since,
                ),
            decreases self.projects.len() - i,
        {
            let p = &self.projects[i];
            proof {
                assert(ps.take(i as int + 1).drop_last() =~= ps.take(i as int));
                assert(ps.take(i as int + 1).last() == ps[i as int]);
                assert(ps[i as int] == self.projects@[i as int].deep_view());
            }
            let is_candidate = p.stream == stream && (match &project_n {
                Some(n) => p.project == *n,
                None => true,
            });
            proof {
                assert(is_candidate == project_in_query(ps[i as int], sv, pv));
            }
            if is_candidate {
                let mut path = stream.clone();
                path.append("/");
                path.append(p.project.as_str());
                proof {
                    reveal_strlit("/");
                    assert("/"@ =~= seq!['/']);
                    assert(path@ =~= path_of(sv, ps[i as int].project));
                }
                let fb = self.collect_badges(p.project_id, minchange, maxchange, since);
                let fe = self.collect_events(p.project_id, minchange, maxchange, since);
                let mut recs = fold_records(&path, &fb, &fe);
                items.append(&mut recs);
                let mb = max_badge_seq_vec(&fb);
                let me = max_event_seq_vec(&fe);
                let pm = if mb >= me {
                    mb
                } else {
                    me
                };
                if pm > max_seq {
                    max_seq = pm;
                }
                proof {
                    let cps0 = candidate_projects(ps.take(i as int), sv, pv);
                    let cps1 = candidate_projects(ps.take(i as int + 1), sv, pv);
                    assert(cps1 == cps0.push(ps[i as int]));
                    assert(cps1.drop_last() =~= cps0);
                    assert(items.deep_view() =~= items_spec(
                        self@,
                        sv,
                        cps1,
                        minchange,
                        maxchange,
                        since,
                    ));
                    assert(max_seq == max_seq_spec(self@, cps1, minchange, maxchange, since));
                }
            } else {
                proof {
                    assert(candidate_projects(ps.take(i as int + 1), sv, pv) == candidate_projects(
                        ps.take(i as int),
                        sv,
                        pv,
                    ));
                }
            }
            i = i + 1;
        }
        proof {
            assert(ps.take(i as int) =~= ps);
        }
        GetMetadataListResponseV2 { sequence_number: max_seq, items }
    }
}

} // verus!
