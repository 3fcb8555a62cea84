//! Data model of the metadata engine: projects, badges, user events, and the
//! request/response shapes of the synchronization API, together with their
//! mathematical models (ghost views) used by the contracts.

use vstd::prelude::*;

verus! {

use crate::AppError;

/// Result of one build, as reported by a badge. The wire encoding of each
/// state is a fixed small integer (see [`BadgeResult::code`]) and must stay
/// stable for old clients.
#[derive(Clone, Copy, Debug, PartialEq, Eq, Structural)]
pub enum BadgeResult {
    Starting,
    Failure,
    Warning,
    Success,
    Skipped,
}

impl BadgeResult {
    /// The fixed wire encoding of this state.
    pub open spec fn code_spec(self) -> u8 {
        match self {
            BadgeResult::Starting => 0,
            BadgeResult::Failure => 1,
            BadgeResult::Warning => 2,
            BadgeResult::Success => 3,
            BadgeResult::Skipped => 4,
        }
    }

    /// Encode this state as its stable wire integer.
    pub fn code(&self) -> (r: u8)
        ensures
            r == self.code_spec(),
    {
        match self {
            BadgeResult::Starting => 0,
            BadgeResult::Failure => 1,
            BadgeResult::Warning => 2,
            BadgeResult::Success => 3,
            BadgeResult::Skipped => 4,
        }
    }

    /// Decode a stored wire integer. A value outside the known range is a
    /// data-integrity error and is reported, never coerced to a default.
    pub fn from_code(c: u8) -> (r: Result<BadgeResult, AppError>)
        ensures
            c <= 4 ==> (r matches Ok(b) && b.code_spec() == c),
            c > 4 ==> (r matches Err(e) && e == AppError::StorageError),
    {
        match c {
            0 => Ok(BadgeResult::Starting),
            1 => Ok(BadgeResult::Failure),
            2 => Ok(BadgeResult::Warning),
            3 => Ok(BadgeResult::Success),
            4 => Ok(BadgeResult::Skipped),
            _ => Err(AppError::StorageError),
        }
    }
}

/// A user's vote on a changelist. Wire-stable small integers, like
/// [`BadgeResult`].
#[derive(Clone, Copy, Debug, PartialEq, Eq, Structural)]
pub enum UgsUserVote {
    NoVote,
    CompileSuccess,
    CompileFailure,
    Good,
    Bad,
}

impl UgsUserVote {
    /// The fixed wire encoding of this vote.
    pub open spec fn code_spec(self) -> u8 {
        match self {
            UgsUserVote::NoVote => 0,
            UgsUserVote::CompileSuccess => 1,
            UgsUserVote::CompileFailure => 2,
            UgsUserVote::Good => 3,
            UgsUserVote::Bad => 4,
        }
    }

    /// Encode this vote as its stable wire integer.
    pub fn code(&self) -> (r: u8)
        ensures
            r == self.code_spec(),
    {
        match self {
            UgsUserVote::NoVote => 0,
            UgsUserVote::CompileSuccess => 1,
            UgsUserVote::CompileFailure => 2,
            UgsUserVote::Good => 3,
            UgsUserVote::Bad => 4,
        }
    }

    /// Decode a stored wire integer; out-of-range values are a data-integrity
    /// error.
    pub fn from_code(c: u8) -> (r: Result<UgsUserVote, AppError>)
        ensures
            c <= 4 ==> (r matches Ok(v) && v.code_spec() == c),
            c > 4 ==> (r matches Err(e) && e == AppError::StorageError),
    {
        match c {
            0 => Ok(UgsUserVote::NoVote),
            1 => Ok(UgsUserVote::CompileSuccess),
            2 => Ok(UgsUserVote::CompileFailure),
            3 => Ok(UgsUserVote::Good),
            4 => Ok(UgsUserVote::Bad),
            _ => Err(AppError::StorageError),
        }
    }
}

/// A project identity: a stream and a project name, both stored lowercased,
/// with the durable integer id assigned on creation.
#[derive(Debug, Clone)]
pub struct Project {
    pub project_id: i64,
    pub stream: String,
    pub project: String,
}

/// Mathematical model of a [`Project`].
pub ghost struct ProjectModel {
    pub project_id: i64,
    pub stream: Seq<char>,
    pub project: Seq<char>,
}

impl View for Project {
    type V = ProjectModel;

    open spec fn view(&self) -> ProjectModel {
        self.deep_view()
    }
}

impl DeepView for Project {
    type V = ProjectModel;

    open spec fn deep_view(&self) -> ProjectModel {
        ProjectModel {
            project_id: self.project_id,
            stream: self.stream@,
            project: self.project@,
        }
    }
}

/// One immutable build-status report. `added_at` is a Unix timestamp in
/// microseconds.
#[derive(Debug, Clone)]
pub struct Badge {
    pub sequence: i64,
    pub change_number: i64,
    pub added_at: i64,
    pub build_type: String,
    pub result: BadgeResult,
    pub url: String,
    pub project_id: i64,
}

/// Mathematical model of a [`Badge`].
pub ghost struct BadgeModel {
    pub sequence: i64,
    pub change_number: i64,
    pub added_at: i64,
    pub build_type: Seq<char>,
    pub result: BadgeResult,
    pub url: Seq<char>,
    pub project_id: i64,
}

impl View for Badge {
    type V = BadgeModel;

    open spec fn view(&self) -> BadgeModel {
        self.deep_view()
    }
}

impl DeepView for Badge {
    type V = BadgeModel;

    open spec fn deep_view(&self) -> BadgeModel {
        BadgeModel {
            sequence: self.sequence,
            change_number: self.change_number,
            added_at: self.added_at,
            build_type: self.build_type@,
            result: self.result,
            url: self.url@,
            project_id: self.project_id,
        }
    }
}

/// One user's cumulative review state for a (project, changelist) pair.
/// Timestamps are Unix microseconds. The sequence number is refreshed on
/// every mutation.
#[derive(Debug, Clone)]
pub struct UserEvent {
    pub id: i64,
    pub project_id: i64,
    pub change_number: i64,
    pub user_name: String,
    pub sequence: i64,
    pub updated_at: i64,
    pub synced_at: Option<i64>,
    pub vote: Option<UgsUserVote>,
    pub starred: Option<bool>,
    pub investigating: Option<bool>,
    pub comment: Option<String>,
}

/// Mathematical model of a [`UserEvent`].
pub ghost struct UserEventModel {
    pub id: i64,
    pub project_id: i64,
    pub change_number: i64,
    pub user_name: Seq<char>,
    pub sequence: i64,
    pub updated_at: i64,
    pub synced_at: Option<i64>,
    pub vote: Option<UgsUserVote>,
    pub starred: Option<bool>,
    pub investigating: Option<bool>,
    pub comment: Option<Seq<char>>,
}

impl View for UserEvent {
    type V = UserEventModel;

    open spec fn view(&self) -> UserEventModel {
        self.deep_view()
    }
}

impl DeepView for UserEvent {
    type V = UserEventModel;

    open spec fn deep_view(&self) -> UserEventModel {
        UserEventModel {
            id: self.id,
            project_id: self.project_id,
            change_number: self.change_number,
            user_name: self.user_name@,
            sequence: self.sequence,
            updated_at: self.updated_at,
            synced_at: self.synced_at,
            vote: self.vote,
            starred: self.starred,
            investigating: self.investigating,
            comment: self.comment.deep_view(),
        }
    }
}

/// A badge submission: the project is still a raw `//<domain>/<stream>/<name>`
/// path and the result has not yet been persisted.
#[derive(Debug, Clone)]
pub struct CreateBadge {
    pub change_number: i64,
    pub build_type: String,
    pub result: BadgeResult,
    pub url: String,
    pub project: String,
}

/// Mathematical model of a [`CreateBadge`].
pub ghost struct CreateBadgeModel {
    pub change_number: i64,
    pub build_type: Seq<char>,
    pub result: BadgeResult,
    pub url: Seq<char>,
    pub project: Seq<char>,
}

impl View for CreateBadge {
    type V = CreateBadgeModel;

    open spec fn view(&self) -> CreateBadgeModel {
        self.deep_view()
    }
}

impl DeepView for CreateBadge {
    type V = CreateBadgeModel;

    open spec fn deep_view(&self) -> CreateBadgeModel {
        CreateBadgeModel {
            change_number: self.change_number,
            build_type: self.build_type@,
            result: self.result,
            url: self.url@,
            project: self.project@,
        }
    }
}

/// A user-event submission: every optional field means "set if provided, keep
/// the stored value otherwise".
#[derive(Debug, Clone)]
pub struct UpdateMetadataRequestV2 {
    pub change: i64,
    pub stream: String,
    pub project: Option<String>,
    pub user_name: String,
    pub synced: Option<bool>,
    pub vote: Option<UgsUserVote>,
    pub investigating: Option<bool>,
    pub starred: Option<bool>,
    pub comment: Option<String>,
}

/// Mathematical model of an [`UpdateMetadataRequestV2`].
pub ghost struct UpdateMetadataRequestModel {
    pub change: i64,
    pub stream: Seq<char>,
    pub project: Option<Seq<char>>,
    pub user_name: Seq<char>,
    pub synced: Option<bool>,
    pub vote: Option<UgsUserVote>,
    pub investigating: Option<bool>,
    pub starred: Option<bool>,
    pub comment: Option<Seq<char>>,
}

impl View for UpdateMetadataRequestV2 {
    type V = UpdateMetadataRequestModel;

    open spec fn view(&self) -> UpdateMetadataRequestModel {
        self.deep_view()
    }
}

impl DeepView for UpdateMetadataRequestV2 {
    type V = UpdateMetadataRequestModel;

    open spec fn deep_view(&self) -> UpdateMetadataRequestModel {
        UpdateMetadataRequestModel {
            change: self.change,
            stream: self.stream@,
            project: self.project.deep_view(),
            user_name: self.user_name@,
            synced: self.synced,
            vote: self.vote,
            investigating: self.investigating,
            starred: self.starred,
            comment: self.comment.deep_view(),
        }
    }
}

/// Parameters of a latest-sequence query: a raw project path.
#[derive(Debug, Clone)]
pub struct LatestParams {
    pub project: String,
}

/// Response of a latest-sequence query.
#[derive(Debug, Clone, PartialEq)]
pub struct LatestResponseV1 {
    pub version: Option<i64>,
    pub last_event_id: i64,
    pub last_comment_id: i64,
    pub last_build_id: i64,
}

/// Parameters of an aggregate metadata query.
#[derive(Debug, Clone)]
pub struct MetadataIndexParams {
    pub stream: String,
    pub project: Option<String>,
    pub minchange: i64,
    pub maxchange: Option<i64>,
    pub sequence: Option<i64>,
}

/// One user's entry inside an aggregate record.
#[derive(Debug, Clone, PartialEq)]
pub struct GetUserDataResponseV2 {
    pub user: String,
    pub sync_time: Option<i64>,
    pub vote: Option<UgsUserVote>,
    pub comment: Option<String>,
    pub investigating: Option<bool>,
    pub starred: Option<bool>,
}

/// Mathematical model of a [`GetUserDataResponseV2`].
pub ghost struct UserEntryModel {
    pub user: Seq<char>,
    pub sync_time: Option<i64>,
    pub vote: Option<UgsUserVote>,
    pub comment: Option<Seq<char>>,
    pub investigating: Option<bool>,
    pub starred: Option<bool>,
}

impl View for GetUserDataResponseV2 {
    type V = UserEntryModel;

    open spec fn view(&self) -> UserEntryModel {
        self.deep_view()
    }
}

impl DeepView for GetUserDataResponseV2 {
    type V = UserEntryModel;

    open spec fn deep_view(&self) -> UserEntryModel {
        UserEntryModel {
            user: self.user@,
            sync_time: self.sync_time,
            vote: self.vote,
            comment: self.comment.deep_view(),
            investigating: self.investigating,
            starred: self.starred,
        }
    }
}

/// One badge's entry inside an aggregate record.
#[derive(Debug, Clone, PartialEq)]
pub struct GetBadgeDataResponseV2 {
    pub name: String,
    pub url: String,
    pub state: BadgeResult,
}

/// Mathematical model of a [`GetBadgeDataResponseV2`].
pub ghost struct BadgeEntryModel {
    pub name: Seq<char>,
    pub url: Seq<char>,
    pub state: BadgeResult,
}

impl View for GetBadgeDataResponseV2 {
    type V = BadgeEntryModel;

    open spec fn view(&self) -> BadgeEntryModel {
        self.deep_view()
    }
}

impl DeepView for GetBadgeDataResponseV2 {
    type V = BadgeEntryModel;

    open spec fn deep_view(&self) -> BadgeEntryModel {
        BadgeEntryModel { name: self.name@, url: self.url@, state: self.state }
    }
}

/// The aggregate record for one (project, changelist) pair.
#[derive(Debug, Clone, PartialEq)]
pub struct GetMetadataResponseV2 {
    pub change: i64,
    pub project: String,
    pub users: Vec<GetUserDataResponseV2>,
    pub badges: Vec<GetBadgeDataResponseV2>,
}

/// Mathematical model of a [`GetMetadataResponseV2`].
pub ghost struct RecordModel {
    pub change: i64,
    pub project: Seq<char>,
    pub users: Seq<UserEntryModel>,
    pub badges: Seq<BadgeEntryModel>,
}

impl View for GetMetadataResponseV2 {
    type V = RecordModel;

    open spec fn view(&self) -> RecordModel {
        self.deep_view()
    }
}

impl DeepView for GetMetadataResponseV2 {
    type V = RecordModel;

    open spec fn deep_view(&self) -> RecordModel {
        RecordModel {
            change: self.change,
            project: self.project@,
            users: self.users.deep_view(),
            badges: self.badges.deep_view(),
        }
    }
}

/// The full response of an aggregate metadata query: a synchronization cursor
/// and one record per (project, changelist) pair.
#[derive(Debug, Clone, PartialEq)]
pub struct GetMetadataListResponseV2 {
    pub sequence_number: i64,
    pub items: Vec<GetMetadataResponseV2>,
}

/// Mathematical model of a [`GetMetadataListResponseV2`].
pub ghost struct ListModel {
    pub sequence_number: i64,
    pub items: Seq<RecordModel>,
}

impl View for GetMetadataListResponseV2 {
    type V = ListModel;

    open spec fn view(&self) -> ListModel {
        self.deep_view()
    }
}

impl DeepView for GetMetadataListResponseV2 {
    type V = ListModel;

    open spec fn deep_view(&self) -> ListModel {
        ListModel { sequence_number: self.sequence_number, items: self.items.deep_view() }
    }
}

/// Per-operation request counters.
#[derive(Debug, Clone)]
pub struct Metrics {
    pub latest_requests: u64,
    pub build_create_requests: u64,
    pub metadata_index_requests: u64,
    pub metadata_submit_requests: u64,
}

impl Default for Metrics {
    /// All counters start at zero.
    fn default() -> (r: Self)
        ensures
            r.latest_requests == 0,
            r.build_create_requests == 0,
            r.metadata_index_requests == 0,
            r.metadata_submit_requests == 0,
    {
        Metrics {
            latest_requests: 0,
            build_create_requests: 0,
            metadata_index_requests: 0,
            metadata_submit_requests: 0,
        }
    }
}

impl GetMetadataResponseV2 {
    /// Whether this record is the aggregate for the given project path and
    /// changelist.
    pub fn matches(&self, project: &str, change: i64) -> (r: bool)
        ensures
            r == (self.project@ == project@ && self.change == change),
    {
        crate::paths::str_eq(self.project.as_str(), project) && self.change == change
    }
}

} // verus!
