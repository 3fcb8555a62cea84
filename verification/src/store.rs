//! The metadata store: one global state holding projects, badges and user
//! events, a monotonic sequence allocator shared by both record kinds, and
//! the two write operations. Every operation is specified against
//! [`StoreModel`], the store's mathematical model.

use vstd::prelude::*;

verus! {

use crate::AppError;
use crate::models::{
    Badge, BadgeModel, CreateBadge, CreateBadgeModel, LatestParams, LatestResponseV1, Project,
    ProjectModel, UpdateMetadataRequestModel, UpdateMetadataRequestV2, UserEvent, UserEventModel,
};
use crate::paths::{lower_of, normalize_project_name, normalize_stream_spec, split_path_spec};

/// Largest timestamp (Unix microseconds) the store accepts; beyond it the
/// sync-time wire conversion (a multiplication by ten) would overflow a
/// signed 64-bit integer.
pub const MAX_TIMESTAMP_MICROS: i64 = 922_337_203_685_477_580;

/// The store's state: a projects lookup table, the append-only badge table,
/// the mutable-by-key user-event table, and the counters that assign
/// sequence numbers, project ids and event ids.
pub struct MetadataStore {
    pub projects: Vec<Project>,
    pub badges: Vec<Badge>,
    pub user_events: Vec<UserEvent>,
    pub next_sequence: i64,
    pub next_project_id: i64,
    pub next_event_id: i64,
}

/// Mathematical model of a [`MetadataStore`].
pub ghost struct StoreModel {
    pub projects: Seq<ProjectModel>,
    pub badges: Seq<BadgeModel>,
    pub user_events: Seq<UserEventModel>,
    pub next_sequence: i64,
    pub next_project_id: i64,
    pub next_event_id: i64,
}

impl DeepView for MetadataStore {
    type V = StoreModel;

    open spec fn deep_view(&self) -> StoreModel {
        StoreModel {
            projects: self.projects.deep_view(),
            badges: self.badges.deep_view(),
            user_events: self.user_events.deep_view(),
            next_sequence: self.next_sequence,
            next_project_id: self.next_project_id,
            next_event_id: self.next_event_id,
        }
    }
}

impl View for MetadataStore {
    type V = StoreModel;

    open spec fn view(&self) -> StoreModel {
        self.deep_view()
    }
}

/// Well-formedness of the store:
/// - every sequence number already handed out is positive and below the
///   counter, and both tables are strictly ascending in sequence order
///   (so table order is write order);
/// - project ids are below their counter and pairwise distinct, and the
///   (stream, project) identity is unique;
/// - user events are unique per (project id, user name, changelist), and
///   their sync timestamps small enough for the wire conversion.
pub open spec fn wf(s: StoreModel) -> bool {
    &&& 1 <= s.next_sequence
    &&& 0 <= s.next_project_id
    &&& 0 <= s.next_event_id
    &&& forall|i: int|
        0 <= i < s.badges.len() ==> 1 <= (#[trigger] s.badges[i]).sequence < s.next_sequence
    &&& forall|i: int, j: int|
        0 <= i < j < s.badges.len() ==> s.badges[i].sequence < s.badges[j].sequence
    &&& forall|i: int|
        0 <= i < s.user_events.len() ==> 1 <= (#[trigger] s.user_events[i]).sequence
            < s.next_sequence
    &&& forall|i: int, j: int|
        0 <= i < j < s.user_events.len() ==> s.user_events[i].sequence
            < s.user_events[j].sequence
    &&& forall|i: int|
        0 <= i < s.user_events.len() ==> match (#[trigger] s.user_events[i]).synced_at {
            Some(t) => 0 <= t <= MAX_TIMESTAMP_MICROS,
            None => true,
        }
    &&& forall|i: int, j: int|
        0 <= i < j < s.user_events.len() ==> !(s.user_events[i].project_id
            == s.user_events[j].project_id && s.user_events[i].user_name
            == s.user_events[j].user_name && s.user_events[i].change_number
            == s.user_events[j].change_number)
    &&& forall|i: int|
        0 <= i < s.projects.len() ==> 0 <= (#[trigger] s.projects[i]).project_id
            < s.next_project_id
    &&& forall|i: int, j: int|
        0 <= i < j < s.projects.len() ==> s.projects[i].project_id != s.projects[j].project_id
    &&& forall|i: int, j: int|
        0 <= i < j < s.projects.len() ==> !(s.projects[i].stream == s.projects[j].stream
            && s.projects[i].project == s.projects[j].project)
}

/// The first project whose (stream, project) identity equals the given
/// normalized pair, if any.
pub open spec fn find_project_spec(
    projects: Seq<ProjectModel>,
    stream: Seq<char>,
    name: Seq<char>,
) -> Option<ProjectModel>
    decreases projects.len(),
{
    if projects.len() == 0 {
        None
    } else if projects[0].stream == stream && projects[0].project == name {
        Some(projects[0])
    } else {
        find_project_spec(projects.drop_first(), stream, name)
    }
}

/// What a lookup result means: a hit is some row with that identity, and a
/// miss means no row has it.
pub proof fn lemma_find_project_spec(projects: Seq<ProjectModel>, stream: Seq<char>, name: Seq<char>)
    ensures
        match find_project_spec(projects, stream, name) {
            Some(p) => exists|i: int|
                0 <= i < projects.len() && projects[i] == p && p.stream == stream && p.project
                    == name,
            None => forall|i: int|
                0 <= i < projects.len() ==> !((#[trigger] projects[i]).stream == stream
                    && projects[i].project == name),
        },
    decreases projects.len(),
{
    if projects.len() > 0 {
        if !(projects[0].stream == stream && projects[0].project == name) {
            lemma_find_project_spec(projects.drop_first(), stream, name);
            match find_project_spec(projects.drop_first(), stream, name) {
                Some(p) => {
                    let i = choose|i: int|
                        0 <= i < projects.drop_first().len() && projects.drop_first()[i] == p
                            && p.stream == stream && p.project == name;
                    assert(projects[i + 1] == p);
                },
                None => {
                    assert forall|i: int|
                        0 <= i < projects.len() implies !((#[trigger] projects[i]).stream == stream
                        && projects[i].project == name) by {
                        if i > 0 {
                            assert(projects.drop_first()[i - 1] == projects[i]);
                        }
                    }
                },
            }
        }
    }
}

/// Resolving a normalized (stream, name) pair: the existing project's id and
/// the store unchanged, or a fresh id and the store with the new project row
/// appended.
pub open spec fn resolve_or_create_spec(s: StoreModel, stream: Seq<char>, name: Seq<char>) -> (
    i64,
    StoreModel,
) {
    match find_project_spec(s.projects, stream, name) {
        Some(p) => (p.project_id, s),
        None => (
            s.next_project_id,
            StoreModel {
                projects: s.projects.push(
                    ProjectModel { project_id: s.next_project_id, stream, project: name },
                ),
                next_project_id: (s.next_project_id + 1) as i64,
                ..s
            },
        ),
    }
}

/// What submitting a badge does: nothing (and a path error) on a malformed
/// path; otherwise the project is resolved or created and one badge row is
/// appended carrying the freshly allocated sequence number.
pub open spec fn submit_badge_spec(s: StoreModel, b: CreateBadgeModel, now: i64) -> Option<
    StoreModel,
> {
    match split_path_spec(b.project) {
        None => None,
        Some(parts) => {
            let (pid, s1) = resolve_or_create_spec(s, parts.0, parts.1);
            Some(
                StoreModel {
                    badges: s1.badges.push(
                        BadgeModel {
                            sequence: s1.next_sequence,
                            change_number: b.change_number,
                            added_at: now,
                            build_type: b.build_type,
                            result: b.result,
                            url: b.url,
                            project_id: pid,
                        },
                    ),
                    next_sequence: (s1.next_sequence + 1) as i64,
                    ..s1
                },
            )
        },
    }
}

/// The index of the user event for the given (project id, user, changelist)
/// triple, if one exists.
pub open spec fn find_event_spec(
    events: Seq<UserEventModel>,
    pid: i64,
    user: Seq<char>,
    change: i64,
) -> Option<int>
    decreases events.len(),
{
    if events.len() == 0 {
        None
    } else if events[0].project_id == pid && events[0].user_name == user && events[0].change_number
        == change {
        Some(0)
    } else {
        match find_event_spec(events.drop_first(), pid, user, change) {
            Some(i) => Some(i + 1),
            None => None,
        }
    }
}

/// What an event lookup result means.
pub proof fn lemma_find_event_spec(
    events: Seq<UserEventModel>,
    pid: i64,
    user: Seq<char>,
    change: i64,
)
    ensures
        match find_event_spec(events, pid, user, change) {
            Some(i) => 0 <= i < events.len() && events[i].project_id == pid
                && events[i].user_name == user && events[i].change_number == change,
            None => forall|i: int|
                0 <= i < events.len() ==> !((#[trigger] events[i]).project_id == pid
                    && events[i].user_name == user && events[i].change_number == change),
        },
    decreases events.len(),
{
    if events.len() > 0 {
        if !(events[0].project_id == pid && events[0].user_name == user && events[0].change_number
            == change) {
            lemma_find_event_spec(events.drop_first(), pid, user, change);
            match find_event_spec(events.drop_first(), pid, user, change) {
                Some(i) => {
                    assert(events.drop_first()[i] == events[i + 1]);
                },
                None => {
                    assert forall|i: int|
                        0 <= i < events.len() implies !((#[trigger] events[i]).project_id == pid
                        && events[i].user_name == user && events[i].change_number == change) by {
                        if i > 0 {
                            assert(events.drop_first()[i - 1] == events[i]);
                        }
                    }
                },
            }
        }
    }
}

/// The merge policy of a user-event submission: each provided field replaces
/// the stored value, each omitted field keeps it; `synced = true` stamps the
/// sync time with "now"; the sequence number and update time are refreshed.
pub open spec fn merged_event_spec(
    base: UserEventModel,
    req: UpdateMetadataRequestModel,
    now: i64,
    sequence: i64,
) -> UserEventModel {
    UserEventModel {
        id: base.id,
        project_id: base.project_id,
        change_number: base.change_number,
        user_name: base.user_name,
        sequence: sequence,
        updated_at: now,
        synced_at: if req.synced == Some(true) {
            Some(now)
        } else {
            base.synced_at
        },
        vote: if req.vote is Some {
            req.vote
        } else {
            base.vote
        },
        starred: if req.starred is Some {
            req.starred
        } else {
            base.starred
        },
        investigating: if req.investigating is Some {
            req.investigating
        } else {
            base.investigating
        },
        comment: if req.comment is Some {
            req.comment
        } else {
            base.comment
        },
    }
}

/// The empty review state a first submission merges into.
pub open spec fn default_event_spec(
    id: i64,
    pid: i64,
    user: Seq<char>,
    change: i64,
) -> UserEventModel {
    UserEventModel {
        id: id,
        project_id: pid,
        change_number: change,
        user_name: user,
        sequence: 0,
        updated_at: 0,
        synced_at: None,
        vote: None,
        starred: None,
        investigating: None,
        comment: None,
    }
}

/// What submitting a user event does: the project is resolved or created
/// (an absent project name counts as the empty name), the event row for the
/// (project, user, changelist) triple is merged in place — moving to the end
/// of the table, since its sequence number is refreshed — or created from
/// empty defaults.
pub open spec fn submit_user_event_spec(
    s: StoreModel,
    req: UpdateMetadataRequestModel,
    now: i64,
) -> StoreModel {
    let stream = normalize_stream_spec(req.stream);
    let name = match req.project {
        Some(p) => lower_of(p),
        None => Seq::<char>::empty(),
    };
    let (pid, s1) = resolve_or_create_spec(s, stream, name);
    match find_event_spec(s1.user_events, pid, req.user_name, req.change) {
        Some(j) => StoreModel {
            user_events: s1.user_events.remove(j).push(
                merged_event_spec(s1.user_events[j], req, now, s1.next_sequence),
            ),
            next_sequence: (s1.next_sequence + 1) as i64,
            ..s1
        },
        None => StoreModel {
            user_events: s1.user_events.push(
                merged_event_spec(
                    default_event_spec(s1.next_event_id, pid, req.user_name, req.change),
                    req,
                    now,
                    s1.next_sequence,
                ),
            ),
            next_event_id: (s1.next_event_id + 1) as i64,
            next_sequence: (s1.next_sequence + 1) as i64,
            ..s1
        },
    }
}

/// The largest sequence number among a project's badges, or zero.
pub open spec fn max_badge_seq_for(badges: Seq<BadgeModel>, pid: i64) -> i64
    decreases badges.len(),
{
    if badges.len() == 0 {
        0
    } else {
        let rest = max_badge_seq_for(badges.drop_last(), pid);
        if badges.last().project_id == pid && badges.last().sequence > rest {
            badges.last().sequence
        } else {
            rest
        }
    }
}

/// The largest sequence number among a project's user events, or zero.
pub open spec fn max_event_seq_for(events: Seq<UserEventModel>, pid: i64) -> i64
    decreases events.len(),
{
    if events.len() == 0 {
        0
    } else {
        let rest = max_event_seq_for(events.drop_last(), pid);
        if events.last().project_id == pid && events.last().sequence > rest {
            events.last().sequence
        } else {
            rest
        }
    }
}

/// What a latest-sequence query answers: the largest badge and event
/// sequence numbers of the named project, or zeroes for an unknown project.
pub open spec fn latest_spec(s: StoreModel, stream: Seq<char>, name: Seq<char>) -> LatestResponseV1 {
    match find_project_spec(s.projects, stream, name) {
        Some(p) => LatestResponseV1 {
            version: Some(2),
            last_event_id: max_event_seq_for(s.user_events, p.project_id),
            last_comment_id: 0,
            last_build_id: max_badge_seq_for(s.badges, p.project_id),
        },
        None => LatestResponseV1 {
            version: Some(2),
            last_event_id: 0,
            last_comment_id: 0,
            last_build_id: 0,
        },
    }
}

/// Resolving preserves well-formedness and touches nothing but the projects
/// table and its id counter; the id handed back is below the new counter.
pub proof fn lemma_resolve_or_create_wf(s: StoreModel, stream: Seq<char>, name: Seq<char>)
    requires
        wf(s),
        s.next_project_id < i64::MAX,
    ensures
        wf(resolve_or_create_spec(s, stream, name).1),
        0 <= resolve_or_create_spec(s, stream, name).0 < resolve_or_create_spec(
            s,
            stream,
            name,
        ).1.next_project_id,
        resolve_or_create_spec(s, stream, name).1.badges == s.badges,
        resolve_or_create_spec(s, stream, name).1.user_events == s.user_events,
        resolve_or_create_spec(s, stream, name).1.next_sequence == s.next_sequence,
        resolve_or_create_spec(s, stream, name).1.next_event_id == s.next_event_id,
{
    lemma_find_project_spec(s.projects, stream, name);
    match find_project_spec(s.projects, stream, name) {
        Some(p) => {},
        None => {
            let s1 = resolve_or_create_spec(s, stream, name).1;
            assert forall|i: int, j: int| 0 <= i < j < s1.projects.len() implies !(
            s1.projects[i].stream == s1.projects[j].stream && s1.projects[i].project
                == s1.projects[j].project) by {
                if j < s.projects.len() {
                    assert(s1.projects[i] == s.projects[i]);
                    assert(s1.projects[j] == s.projects[j]);
                } else {
                    assert(s1.projects[i] == s.projects[i]);
                }
            }
        },
    }
}

/// Submitting a badge preserves well-formedness.
pub proof fn lemma_submit_badge_wf(s: StoreModel, b: CreateBadgeModel, now: i64)
    requires
        wf(s),
        s.next_sequence < i64::MAX,
        s.next_project_id < i64::MAX,
    ensures
        match submit_badge_spec(s, b, now) {
            Some(s2) => wf(s2),
            None => true,
        },
{
    match split_path_spec(b.project) {
        None => {},
        Some(parts) => {
            lemma_resolve_or_create_wf(s, parts.0, parts.1);
            let s1 = resolve_or_create_spec(s, parts.0, parts.1).1;
            let s2 = submit_badge_spec(s, b, now)->0;
            assert forall|i: int| 0 <= i < s2.badges.len() implies 1 <= (
            #[trigger] s2.badges[i]).sequence < s2.next_sequence by {
                if i < s1.badges.len() {
                    assert(s2.badges[i] == s1.badges[i]);
                }
            }
            assert forall|i: int, j: int| 0 <= i < j < s2.badges.len() implies s2.badges[i].sequence
                < s2.badges[j].sequence by {
                assert(s2.badges[i] == s1.badges[i]);
                if j < s1.badges.len() {
                    assert(s2.badges[j] == s1.badges[j]);
                }
            }
        },
    }
}

/// Submitting a user event preserves well-formedness.
pub proof fn lemma_submit_user_event_wf(s: StoreModel, req: UpdateMetadataRequestModel, now: i64)
    requires
        wf(s),
        s.next_sequence < i64::MAX,
        s.next_project_id < i64::MAX,
        s.next_event_id < i64::MAX,
        0 <= now <= MAX_TIMESTAMP_MICROS,
    ensures
        wf(submit_user_event_spec(s, req, now)),
{
    let stream = normalize_stream_spec(req.stream);
    let name = match req.project {
        Some(p) => lower_of(p),
        None => Seq::<char>::empty(),
    };
    lemma_resolve_or_create_wf(s, stream, name);
    let pid = resolve_or_create_spec(s, stream, name).0;
    let s1 = resolve_or_create_spec(s, stream, name).1;
    let s2 = submit_user_event_spec(s, req, now);
    lemma_find_event_spec(s1.user_events, pid, req.user_name, req.change);
    match find_event_spec(s1.user_events, pid, req.user_name, req.change) {
        Some(j) => {
            let evs = s1.user_events;
            let merged = merged_event_spec(evs[j], req, now, s1.next_sequence);
            evs.remove_ensures(j);
            let evs2 = evs.remove(j).push(merged);
            assert(s2.user_events == evs2);
            assert forall|i: int| 0 <= i < evs2.len() implies 1 <= (
            #[trigger] evs2[i]).sequence < s2.next_sequence by {
                if i < evs2.len() - 1 {
                    if i < j {
                        assert(evs2[i] == evs[i]);
                    } else {
                        assert(evs2[i] == evs[i + 1]);
                    }
                }
            }
            assert forall|i: int, k: int| 0 <= i < k < evs2.len() implies evs2[i].sequence
                < evs2[k].sequence by {
                if i < j {
                    assert(evs2[i] == evs[i]);
                } else if i < evs2.len() - 1 {
                    assert(evs2[i] == evs[i + 1]);
                }
                if k < evs2.len() - 1 {
                    if k < j {
                        assert(evs2[k] == evs[k]);
                    } else {
                        assert(evs2[k] == evs[k + 1]);
                    }
                }
            }
            assert forall|i: int| 0 <= i < evs2.len() implies match (
            #[trigger] evs2[i]).synced_at {
                Some(t) => 0 <= t <= MAX_TIMESTAMP_MICROS,
                None => true,
            } by {
                if i < evs2.len() - 1 {
                    if i < j {
                        assert(evs2[i] == evs[i]);
                    } else {
                        assert(evs2[i] == evs[i + 1]);
                    }
                }
            }
            assert forall|i: int, k: int| 0 <= i < k < evs2.len() implies !(evs2[i].project_id
                == evs2[k].project_id && evs2[i].user_name == evs2[k].user_name
                && evs2[i].change_number == evs2[k].change_number) by {
                if i < j {
                    assert(evs2[i] == evs[i]);
                } else if i < evs2.len() - 1 {
                    assert(evs2[i] == evs[i + 1]);
                }
                if k < evs2.len() - 1 {
                    if k < j {
                        assert(evs2[k] == evs[k]);
                    } else {
                        assert(evs2[k] == evs[k + 1]);
                    }
                }
            }
        },
        None => {
            let evs = s1.user_events;
            let merged = merged_event_spec(
                default_event_spec(s1.next_event_id, pid, req.user_name, req.change),
                req,
                now,
                s1.next_sequence,
            );
            let evs2 = evs.push(merged);
            assert(s2.user_events == evs2);
            assert forall|i: int| 0 <= i < evs2.len() implies 1 <= (
            #[trigger] evs2[i]).sequence < s2.next_sequence by {
                if i < evs.len() {
                    assert(evs2[i] == evs[i]);
                }
            }
            assert forall|i: int, k: int| 0 <= i < k < evs2.len() implies evs2[i].sequence
                < evs2[k].sequence by {
                assert(evs2[i] == evs[i]);
                if k < evs.len() {
                    assert(evs2[k] == evs[k]);
                }
            }
            assert forall|i: int| 0 <= i < evs2.len() implies match (
            #[trigger] evs2[i]).synced_at {
                Some(t) => 0 <= t <= MAX_TIMESTAMP_MICROS,
                None => true,
            } by {
                if i < evs.len() {
                    assert(evs2[i] == evs[i]);
                }
            }
            assert forall|i: int, k: int| 0 <= i < k < evs2.len() implies !(evs2[i].project_id
                == evs2[k].project_id && evs2[i].user_name == evs2[k].user_name
                && evs2[i].change_number == evs2[k].change_number) by {
                assert(evs2[i] == evs[i]);
                if k < evs.len() {
                    assert(evs2[k] == evs[k]);
                }
            }
        },
    }
}

impl MetadataStore {
    /// A fresh, empty store whose sequence counter starts at the given
    /// value. Starting at one (or, after a restart, above every sequence
    /// number already persisted) keeps every allocated sequence positive.
    pub fn new(initial_sequence: i64) -> (r: MetadataStore)
        requires
            1 <= initial_sequence,
        ensures
            r@.projects == Seq::<ProjectModel>::empty(),
            r@.badges == Seq::<BadgeModel>::empty(),
            r@.user_events == Seq::<UserEventModel>::empty(),
            r@.next_sequence == initial_sequence,
            wf(r@),
    {
        let r = MetadataStore {
            projects: Vec::new(),
            badges: Vec::new(),
            user_events: Vec::new(),
            next_sequence: initial_sequence,
            next_project_id: 1,
            next_event_id: 1,
        };
        proof {
            assert(r@.projects =~= Seq::<ProjectModel>::empty());
            assert(r@.badges =~= Seq::<BadgeModel>::empty());
            assert(r@.user_events =~= Seq::<UserEventModel>::empty());
        }
        r
    }

    /// Look a project up by its already-normalized (stream, name) identity,
    /// without creating it.
    pub fn resolve(&self, stream: &String, project_name: &String) -> (r: Option<i64>)
        ensures
            match find_project_spec(self@.projects, stream@, project_name@) {
                Some(p) => r == Some(p.project_id),
                None => r is None,
            },
    {
        let ghost ps = self@.projects;
        proof {
            assert(ps.skip(0) =~= ps);
        }
        let mut i: usize = 0;
        while i < self.projects.len()
            invariant
                i <= self.projects.len(),
                ps == self@.projects,
                ps.len() == self.projects.len(),
                find_project_spec(ps, stream@, project_name@) == find_project_spec(
                    ps.skip(i as int),
                    stream@,
                    project_name@,
                ),
            decreases self.projects.len() - i,
        {
            let p = &self.projects[i];
            proof {
                assert(ps.skip(i as int)[0] == ps[i as int]);
                assert(ps[i as int] == self.projects@[i as int].deep_view());
            }
            if p.stream == *stream && p.project == *project_name {
                proof {
                    assert(find_project_spec(ps.skip(i as int), stream@, project_name@) == Some(
                        ps[i as int],
                    ));
                }
                return Some(p.project_id);
            }
            proof {
                assert(ps.skip(i as int).drop_first() =~= ps.skip(i as int + 1));
                assert(find_project_spec(ps.skip(i as int), stream@, project_name@)
                    == find_project_spec(ps.skip(i as int + 1), stream@, project_name@));
            }
            i = i + 1;
        }
        proof {
            assert(ps.skip(i as int).len() == 0);
        }
        None
    }

    /// Look a project up by raw (stream, name) strings, folding both to
    /// lowercase first, without creating it.
    pub fn get_project(&self, stream: &str, project_name: &str) -> (r: Option<i64>)
        ensures
            match find_project_spec(
                self@.projects,
                lower_of(stream@),
                lower_of(project_name@),
            ) {
                Some(p) => r == Some(p.project_id),
                None => r is None,
            },
    {
        let s = normalize_project_name(stream);
        let n = normalize_project_name(project_name);
        self.resolve(&s, &n)
    }

    /// Resolve an already-normalized (stream, name) identity to its project
    /// id, creating the project row on first use.
    pub fn get_or_add_project(&mut self, stream: String, project_name: String) -> (r: i64)
        requires
            wf(old(self)@),
            old(self)@.next_project_id < i64::MAX,
        ensures
            wf(final(self)@),
            (r, final(self)@) == resolve_or_create_spec(old(self)@, stream@, project_name@),
    {
        let found = self.resolve(&stream, &project_name);
        match found {
            Some(id) => id,
            None => {
                let id = self.next_project_id;
                let p = Project { project_id: id, stream, project: project_name };
                self.projects.push(p);
                self.next_project_id = id + 1;
                proof {
                    lemma_find_project_spec(old(self)@.projects, stream@, project_name@);
                    assert(final(self)@.projects =~= old(self)@.projects.push(
                        ProjectModel {
                            project_id: id,
                            stream: stream@,
                            project: project_name@,
                        },
                    ));
                }
                id
            },
        }
    }

    /// Validate, resolve and persist one badge submission. A malformed
    /// project path is rejected with `InvalidProjectPath` and leaves the
    /// store untouched; otherwise the badge row is appended with the freshly
    /// allocated sequence number, creating the project row if needed.
    pub fn submit_badge(&mut self, badge: CreateBadge, now: i64) -> (r: Result<(), AppError>)
        requires
            wf(old(self)@),
            old(self)@.next_sequence < i64::MAX,
            old(self)@.next_project_id < i64::MAX,
        ensures
            wf(final(self)@),
            match submit_badge_spec(old(self)@, badge@, now) {
                Some(s2) => r is Ok && final(self)@ == s2,
                None => r == Err::<(), AppError>(AppError::InvalidProjectPath) && final(self)@
                    == old(self)@,
            },
    {
        proof {
            lemma_submit_badge_wf(old(self)@, badge@, now);
        }
        let CreateBadge { change_number, build_type, result, url, project } = badge;
        match crate::paths::split_project_path(project.as_str()) {
            None => Err(AppError::InvalidProjectPath),
            Some(parts) => {
                let (stream, name) = parts;
                let pid = self.get_or_add_project(stream, name);
                let seq = self.next_sequence;
                let b = Badge {
                    sequence: seq,
                    change_number,
                    added_at: now,
                    build_type,
                    result,
                    url,
                    project_id: pid,
                };
                let ghost bm = b.deep_view();
                self.badges.push(b);
                self.next_sequence = seq + 1;
                proof {
                    let s2 = submit_badge_spec(old(self)@, badge@, now)->0;
                    assert(self@.badges =~= s2.badges);
                    assert(self@.projects =~= s2.projects);
                    assert(self@.user_events =~= s2.user_events);
                }
                Ok(())
            },
        }
    }

    /// The index of the stored user event for (project id, user,
    /// changelist), if any.
    fn find_event(&self, pid: i64, user: &String, change: i64) -> (r: Option<usize>)
        ensures
            match find_event_spec(self@.user_events, pid, user@, change) {
                Some(j) => r matches Some(u) && u as int == j,
                None => r is None,
            },
    {
        let ghost evs = self@.user_events;
        proof {
            assert(evs.skip(0) =~= evs);
        }
        let mut i: usize = 0;
        while i < self.user_events.len()
            invariant
                i <= self.user_events.len(),
                evs == self@.user_events,
                evs.len() == self.user_events.len(),
                ({
                    let full = find_event_spec(evs, pid, user@, change);
                    match find_event_spec(evs.skip(i as int), pid, user@, change) {
                        Some(k) => full == Some(k + i),
                        None => full is None,
                    }
                }),
            decreases self.user_events.len() - i,
        {
            let e = &self.user_events[i];
            proof {
                assert(evs.skip(i as int)[0] == evs[i as int]);
                assert(evs[i as int] == self.user_events@[i as int].deep_view());
            }
            if e.project_id == pid && e.user_name == *user && e.change_number == change {
                proof {
                    assert(find_event_spec(evs.skip(i as int), pid, user@, change) == Some(0int));
                }
                return Some(i);
            }
            proof {
                assert(evs.skip(i as int).drop_first() =~= evs.skip(i as int + 1));
            }
            i = i + 1;
        }
        proof {
            assert(evs.skip(i as int).len() == 0);
        }
        None
    }

    /// Merge one user-event submission into the store: resolve or create the
    /// project, then update the (project, user, changelist) row in place —
    /// provided fields replace stored ones, omitted fields keep them — or
    /// create it from empty defaults, in either case stamping the freshly
    /// allocated sequence number.
    #[verifier::rlimit(80)]
    pub fn submit_user_event(&mut self, req: UpdateMetadataRequestV2, now: i64)
        requires
            wf(old(self)@),
            old(self)@.next_sequence < i64::MAX,
            old(self)@.next_project_id < i64::MAX,
            old(self)@.next_event_id < i64::MAX,
            0 <= now <= MAX_TIMESTAMP_MICROS,
        ensures
            wf(final(self)@),
            final(self)@ == submit_user_event_spec(old(self)@, req@, now),
    {
        proof {
            lemma_submit_user_event_wf(old(self)@, req@, now);
        }
        let UpdateMetadataRequestV2 {
            change,
            stream,
            project,
            user_name,
            synced,
            vote,
            investigating,
            starred,
            comment,
        } = req;
        let stream_n = crate::paths::normalize_stream(stream.as_str());
        let name_n = match &project {
            Some(p) => normalize_project_name(p.as_str()),
            None => String::new(),
        };
        proof {
            assert(name_n@ =~= match req@.project {
                Some(p) => lower_of(p),
                None => Seq::<char>::empty(),
            });
        }
        let pid = self.get_or_add_project(stream_n, name_n);
        let seq = self.next_sequence;
        let found = self.find_event(pid, &user_name, change);
        match found {
            Some(j) => {
                proof {
                    lemma_find_event_spec(self@.user_events, pid, user_name@, change);
                }
                let ghost evs1 = self@.user_events;
                let ghost jj = j as int;
                let prev = self.user_events.remove(j);
                proof {
                    evs1.remove_ensures(jj);
                    assert(self@.user_events =~= evs1.remove(jj));
                }
                let merged = UserEvent {
                    id: prev.id,
                    project_id: prev.project_id,
                    change_number: prev.change_number,
                    user_name: prev.user_name,
                    sequence: seq,
                    updated_at: now,
                    synced_at: match synced {
                        Some(true) => Some(now),
                        _ => prev.synced_at,
                    },
                    vote: match vote {
                        Some(v) => Some(v),
                        None => prev.vote,
                    },
                    starred: match starred {
                        Some(b) => Some(b),
                        None => prev.starred,
                    },
                    investigating: match investigating {
                        Some(b) => Some(b),
                        None => prev.investigating,
                    },
                    comment: match comment {
                        Some(c) => Some(c),
                        None => prev.comment,
                    },
                };
                self.user_events.push(merged);
                self.next_sequence = seq + 1;
                proof {
                    let s2 = submit_user_event_spec(old(self)@, req@, now);
                    assert(self@.user_events =~= s2.user_events);
                    assert(self@.projects =~= s2.projects);
                    assert(self@.badges =~= s2.badges);
                }
            },
            None => {
                let ev = UserEvent {
                    id: self.next_event_id,
                    project_id: pid,
                    change_number: change,
                    user_name: user_name,
                    sequence: seq,
                    updated_at: now,
                    synced_at: match synced {
                        Some(true) => Some(now),
                        _ => None,
                    },
                    vote: vote,
                    starred: starred,
                    investigating: investigating,
                    comment: comment,
                };
                self.user_events.push(ev);
                self.next_event_id = self.next_event_id + 1;
                self.next_sequence = seq + 1;
                proof {
                    let s2 = submit_user_event_spec(old(self)@, req@, now);
                    assert(self@.user_events =~= s2.user_events);
                    assert(self@.projects =~= s2.projects);
                    assert(self@.badges =~= s2.badges);
                }
            },
        }
    }

    /// The largest badge sequence number of one project, or zero.
    fn max_badge_sequence(&self, pid: i64) -> (r: i64)
        ensures
            r == max_badge_seq_for(self@.badges, pid),
    {
        let ghost bs = self@.badges;
        let mut m: i64 = 0;
        let mut i: usize = 0;
        proof {
            assert(bs.take(0) =~= Seq::<BadgeModel>::empty());
        }
        while i < self.badges.len()
            invariant
                i <= self.badges.len(),
                bs == self@.badges,
                bs.len() == self.badges.len(),
                m == max_badge_seq_for(bs.take(i as int), pid),
            decreases self.badges.len() - i,
        {
            let b = &self.badges[i];
            proof {
                assert(bs.take(i as int + 1).drop_last() =~= bs.take(i as int));
                assert(bs.take(i as int + 1).last() == bs[i as int]);
                assert(bs[i as int] == self.badges@[i as int].deep_view());
            }
            if b.project_id == pid && b.sequence > m {
                m = b.sequence;
            }
            i = i + 1;
        }
        proof {
            assert(bs.take(i as int) =~= bs);
        }
        m
    }

    /// The largest user-event sequence number of one project, or zero.
    fn max_event_sequence(&self, pid: i64) -> (r: i64)
        ensures
            r == max_event_seq_for(self@.user_events, pid),
    {
        let ghost evs = self@.user_events;
        let mut m: i64 = 0;
        let mut i: usize = 0;
        proof {
            assert(evs.take(0) =~= Seq::<UserEventModel>::empty());
        }
        while i < self.user_events.len()
            invariant
                i <= self.user_events.len(),
                evs == self@.user_events,
                evs.len() == self.user_events.len(),
                m == max_event_seq_for(evs.take(i as int), pid),
            decreases self.user_events.len() - i,
        {
            let e = &self.user_events[i];
            proof {
                assert(evs.take(i as int + 1).drop_last() =~= evs.take(i as int));
                assert(evs.take(i as int + 1).last() == evs[i as int]);
                assert(evs[i as int] == self.user_events@[i as int].deep_view());
            }
            if e.project_id == pid && e.sequence > m {
                m = e.sequence;
            }
            i = i + 1;
        }
        proof {
            assert(evs.take(i as int) =~= evs);
        }
        m
    }

    /// Answer a latest-sequence query: the largest badge and user-event
    /// sequence numbers recorded for the project named by the raw path, or
    /// zeroes if the project is unknown; a malformed path is rejected.
    pub fn latest(&self, params: &LatestParams) -> (r: Result<LatestResponseV1, AppError>)
        ensures
            match split_path_spec(params.project@) {
                None => r == Err::<LatestResponseV1, AppError>(AppError::InvalidProjectPath),
                Some(parts) => r == Ok::<LatestResponseV1, AppError>(
                    latest_spec(self@, parts.0, parts.1),
                ),
            },
    {
        match crate::paths::split_project_path(params.project.as_str()) {
            None => Err(AppError::InvalidProjectPath),
            Some(parts) => {
                let (stream, name) = parts;
                match self.resolve(&stream, &name) {
                    None => Ok(
                        LatestResponseV1 {
                            version: Some(2),
                            last_event_id: 0,
                            last_comment_id: 0,
                            last_build_id: 0,
                        },
                    ),
                    Some(pid) => Ok(
                        LatestResponseV1 {
                            version: Some(2),
                            last_event_id: self.max_event_sequence(pid),
                            last_comment_id: 0,
                            last_build_id: self.max_badge_sequence(pid),
                        },
                    ),
                }
            },
        }
    }
}

} // verus!
