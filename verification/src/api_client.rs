//! Talking to the data API: where requests go, what they carry, how replies are
//! judged, and when an upload is tried again.

use crate::ident::{format_uuid, uuid_text};
use crate::text::{dec_string, dec_text, owned, same_text};
use crate::time::{rfc3339_text, to_rfc3339, Timestamp};
use crate::voice::buffer::ChunkUpload;
use vstd::prelude::*;
use vstd::string::*;

verus! {

/// What can go wrong with a call.
pub enum ApiError {
    /// The request did not get through.
    Http { message: String },
    /// The data API answered with something else than success.
    Status { status: u16, body: String },
}

impl ApiError {
    /// What the error says.
    pub open spec fn text(self) -> Seq<char> {
        match self {
            ApiError::Http { message } => "HTTP error: "@ + message@,
            ApiError::Status { status, body } => "API returned "@ + dec_text(status as nat) + ": "@
                + body@,
        }
    }

    /// What the error says.
    pub fn message(&self) -> (m: String)
        ensures
            m@ == self.text(),
    {
        match self {
            ApiError::Http { message } => {
                let mut m = owned("HTTP error: ");
                m.append(message.as_str());
                m
            },
            ApiError::Status { status, body } => {
                let mut m = owned("API returned ");
                m.append(dec_string(*status as u64).as_str());
                m.append(": ");
                m.append(body.as_str());
                m
            },
        }
    }
}

/// A status code that means success.
pub open spec fn is_success(status: u16) -> bool {
    200 <= status <= 299
}

/// Let success pass, and make an error of everything else.
pub fn check_status(status: u16, body: String) -> (r: Result<String, ApiError>)
    ensures
        r == (if is_success(status) {
            Ok::<String, ApiError>(body)
        } else {
            Err::<String, ApiError>(ApiError::Status { status, body })
        }),
{
    if 200 <= status && status <= 299 {
        Ok(body)
    } else {
        Err(ApiError::Status { status, body })
    }
}

/// A place of the data API.
pub enum Endpoint {
    Auth,
    Heartbeat,
    Sessions,
    Session { session: u128 },
    Users,
    DisplayNames { pseudo_id: String },
    Participants { session: u128 },
    ParticipantsBatch { session: u128 },
    Consent { participant: u128 },
    License { participant: u128 },
    Chunk { session: u128, pseudo_id: String },
    Metadata { session: u128 },
}

impl Endpoint {
    /// The path of the place.
    pub open spec fn path(self) -> Seq<char> {
        match self {
            Endpoint::Auth => "/internal/auth"@,
            Endpoint::Heartbeat => "/internal/heartbeat"@,
            Endpoint::Sessions => "/internal/sessions"@,
            Endpoint::Session { session } => "/internal/sessions/"@ + uuid_text(session),
            Endpoint::Users => "/internal/users"@,
            Endpoint::DisplayNames { pseudo_id } => "/internal/users/"@ + pseudo_id@
                + "/display_names"@,
            Endpoint::Participants { session } => "/internal/sessions/"@ + uuid_text(session)
                + "/participants"@,
            Endpoint::ParticipantsBatch { session } => "/internal/sessions/"@ + uuid_text(session)
                + "/participants/batch"@,
            Endpoint::Consent { participant } => "/internal/participants/"@ + uuid_text(participant)
                + "/consent"@,
            Endpoint::License { participant } => "/internal/participants/"@ + uuid_text(participant)
                + "/license"@,
            Endpoint::Chunk { session, pseudo_id } => "/internal/sessions/"@ + uuid_text(session)
                + "/audio/"@ + pseudo_id@ + "/chunk"@,
            Endpoint::Metadata { session } => "/internal/sessions/"@ + uuid_text(session)
                + "/metadata"@,
        }
    }

    /// The address of the place under `base_url`.
    pub fn url(&self, base_url: &str) -> (u: String)
        ensures
            u@ == base_url@ + self.path(),
    {
        let mut p = String::new();
        match self {
            Endpoint::Auth => {
                p.append("/internal/auth");
            },
            Endpoint::Heartbeat => {
                p.append("/internal/heartbeat");
            },
            Endpoint::Sessions => {
                p.append("/internal/sessions");
            },
            Endpoint::Session { session } => {
                p.append("/internal/sessions/");
                p.append(format_uuid(*session).as_str());
            },
            Endpoint::Users => {
                p.append("/internal/users");
            },
            Endpoint::DisplayNames { pseudo_id } => {
                p.append("/internal/users/");
                p.append(pseudo_id.as_str());
                p.append("/display_names");
            },
            Endpoint::Participants { session } => {
                p.append("/internal/sessions/");
                p.append(format_uuid(*session).as_str());
                p.append("/participants");
            },
            Endpoint::ParticipantsBatch { session } => {
                p.append("/internal/sessions/");
                p.append(format_uuid(*session).as_str());
                p.append("/participants/batch");
            },
            Endpoint::Consent { participant } => {
                p.append("/internal/participants/");
                p.append(format_uuid(*participant).as_str());
                p.append("/consent");
            },
            Endpoint::License { participant } => {
                p.append("/internal/participants/");
                p.append(format_uuid(*participant).as_str());
                p.append("/license");
            },
            Endpoint::Chunk { session, pseudo_id } => {
                p.append("/internal/sessions/");
                p.append(format_uuid(*session).as_str());
                p.append("/audio/");
                p.append(pseudo_id.as_str());
                p.append("/chunk");
            },
            Endpoint::Metadata { session } => {
                p.append("/internal/sessions/");
                p.append(format_uuid(*session).as_str());
                p.append("/metadata");
            },
        }
        assert(p@ =~= self.path());
        let mut u = owned(base_url);
        u.append(p.as_str());
        u
    }
}

/// The value of the authorization header.
pub fn auth_header(token: &str) -> (h: String)
    ensures
        h@ == "Bearer "@ + token@,
{
    let mut h = owned("Bearer ");
    h.append(token);
    h
}

/// One header of a request.
pub struct Header {
    pub name: String,
    pub value: String,
}

impl Header {
    pub open spec fn says(self, name: Seq<char>, value: Seq<char>) -> bool {
        self.name@ == name && self.value@ == value
    }
}

/// The headers of an uploaded chunk: when it was captured, how long it plays,
/// and the key by which the data API knows it again.
pub fn chunk_headers(upload: &ChunkUpload) -> (h: Vec<Header>)
    requires
        upload.capture_started_at.wf(),
    ensures
        h@.len() == 4,
        h@[0].says("content-type"@, "application/octet-stream"@),
        h@[1].says(
            "x-capture-started-at"@,
            rfc3339_text(upload.capture_started_at.secs, upload.capture_started_at.nanos),
        ),
        h@[2].says("x-duration-ms"@, dec_text(upload.duration_ms as nat)),
        h@[3].says("x-client-chunk-id"@, upload.client_chunk_id@),
{
    let mut h: Vec<Header> = Vec::new();
    h.push(Header { name: owned("content-type"), value: owned("application/octet-stream") });
    h.push(
        Header {
            name: owned("x-capture-started-at"),
            value: to_rfc3339(&upload.capture_started_at),
        },
    );
    h.push(Header { name: owned("x-duration-ms"), value: dec_string(upload.duration_ms) });
    h.push(
        Header {
            name: owned("x-client-chunk-id"),
            value: owned(upload.client_chunk_id.as_str()),
        },
    );
    h
}

/// What came of sending a chunk.
#[derive(Debug, Clone, Copy, PartialEq, Eq, Structural)]
pub enum SendOutcome {
    /// The data API answered with this status.
    Status { status: u16 },
    /// The request did not get through.
    Network,
}

/// What to do next about an upload.
#[derive(Debug, Clone, Copy, PartialEq, Eq, Structural)]
pub enum UploadAction {
    /// The chunk is uploaded.
    Done,
    /// Log in again, then send once more at once.
    Reauthenticate,
    /// Wait this many seconds, then send once more.
    RetryAfter { secs: u64 },
    /// Give up, with the outcome as the error.
    Fail,
}

/// How often an upload is tried again after a server or network error.
pub const MAX_RETRIES: u32 = 3;

/// Where the upload of a chunk stands.
///
/// Server errors and network errors are tried again up to three times, after
/// one, two and four seconds. The first refusal for want of a valid login leads
/// to a new login and one more try that does not count. Everything else fails at
/// once.
#[derive(Debug, Clone, Copy, PartialEq, Eq, Structural)]
pub struct UploadRetry {
    /// How many retries after server or network errors there were.
    pub retries: u32,
    /// Whether a new login was tried.
    pub reauth_attempted: bool,
}

/// The seconds before retry number `n`, counted from zero.
pub open spec fn backoff_secs(n: int) -> int {
    if n == 0 {
        1
    } else if n == 1 {
        2
    } else {
        4
    }
}

impl UploadRetry {
    pub open spec fn wf(self) -> bool {
        self.retries <= MAX_RETRIES
    }

    /// How many more times the chunk can be sent after the send in flight.
    pub open spec fn sends_left(self) -> int {
        (MAX_RETRIES - self.retries) + if self.reauth_attempted {
            0int
        } else {
            1int
        }
    }

    /// The outcome is worth another try: a server error, or none at all.
    pub open spec fn transient(outcome: SendOutcome) -> bool {
        match outcome {
            SendOutcome::Network => true,
            SendOutcome::Status { status } => status >= 500,
        }
    }

    /// What the outcome of a send leads to.
    pub open spec fn action(self, outcome: SendOutcome) -> UploadAction {
        if outcome matches SendOutcome::Status { status } && is_success(status) {
            UploadAction::Done
        } else if outcome == (SendOutcome::Status { status: 401 }) && !self.reauth_attempted {
            UploadAction::Reauthenticate
        } else if Self::transient(outcome) && self.retries < MAX_RETRIES {
            UploadAction::RetryAfter { secs: backoff_secs(self.retries as int) as u64 }
        } else {
            UploadAction::Fail
        }
    }

    /// Whether the outcome is worth another try: a server error, or none at all.
    pub fn is_transient(outcome: SendOutcome) -> (b: bool)
        ensures
            b == Self::transient(outcome),
    {
        match outcome {
            SendOutcome::Network => true,
            SendOutcome::Status { status } => status >= 500,
        }
    }

    /// No send yet.
    pub fn new() -> (r: UploadRetry)
        ensures
            r == (UploadRetry { retries: 0, reauth_attempted: false }),
            r.wf(),
    {
        UploadRetry { retries: 0, reauth_attempted: false }
    }

    /// Take in the outcome of a send.
    pub fn on_outcome(&mut self, outcome: SendOutcome) -> (a: UploadAction)
        requires
            old(self).wf(),
        ensures
            final(self).wf(),
            a == old(self).action(outcome),
            final(self).retries == (if a is RetryAfter {
                old(self).retries + 1
            } else {
                old(self).retries as int
            }),
            final(self).reauth_attempted == (old(self).reauth_attempted || a is Reauthenticate),
            *final(self) == old(self).after(outcome),
    {
        match outcome {
            SendOutcome::Status { status } => {
                if 200 <= status && status <= 299 {
                    return UploadAction::Done;
                }
                if status == 401 && !self.reauth_attempted {
                    self.reauth_attempted = true;
                    return UploadAction::Reauthenticate;
                }
            },
            SendOutcome::Network => {},
        }
        if !UploadRetry::is_transient(outcome) || self.retries >= MAX_RETRIES {
            return UploadAction::Fail;
        }
        let secs: u64 = if self.retries == 0 {
            1
        } else if self.retries == 1 {
            2
        } else {
            4
        };
        self.retries = self.retries + 1;
        UploadAction::RetryAfter { secs }
    }

    /// The state after an outcome.
    pub open spec fn after(self, outcome: SendOutcome) -> UploadRetry {
        let a = self.action(outcome);
        UploadRetry {
            retries: if a is RetryAfter {
                (self.retries + 1) as u32
            } else {
                self.retries
            },
            reauth_attempted: self.reauth_attempted || a is Reauthenticate,
        }
    }
}

/// Where an upload stands after a row of outcomes, none of which ended it.
pub open spec fn after_outcomes(r: UploadRetry, outcomes: Seq<SendOutcome>) -> UploadRetry
    decreases outcomes.len(),
{
    if outcomes.len() == 0 {
        r
    } else {
        after_outcomes(r, outcomes.drop_last()).after(outcomes.last())
    }
}

/// The upload goes on after each of the outcomes.
pub open spec fn goes_on(r: UploadRetry, outcomes: Seq<SendOutcome>) -> bool {
    forall|i: int|
        0 <= i < outcomes.len() ==> {
            let a = #[trigger] after_outcomes(r, outcomes.take(i)).action(outcomes[i]);
            a is RetryAfter || a is Reauthenticate
        }
}

/// Whatever the data API answers, a chunk is sent five times at most: once, one
/// retry after each of the three pauses, and once more after a new login.
pub proof fn law_uploads_end(outcomes: Seq<SendOutcome>)
    requires
        goes_on(UploadRetry { retries: 0, reauth_attempted: false }, outcomes),
    ensures
        outcomes.len() <= 4,
{
    let r = UploadRetry { retries: 0, reauth_attempted: false };
    lemma_sends_left(r, outcomes);
}

proof fn lemma_sends_left(r: UploadRetry, outcomes: Seq<SendOutcome>)
    requires
        r.wf(),
        goes_on(r, outcomes),
    ensures
        after_outcomes(r, outcomes).wf(),
        after_outcomes(r, outcomes).sends_left() == r.sends_left() - outcomes.len(),
        after_outcomes(r, outcomes).sends_left() >= 0,
    decreases outcomes.len(),
{
    if outcomes.len() > 0 {
        let front = outcomes.drop_last();
        let n = outcomes.len() - 1;
        assert forall|i: int| 0 <= i < front.len() implies ({
            let a = #[trigger] after_outcomes(r, front.take(i)).action(front[i]);
            a is RetryAfter || a is Reauthenticate
        }) by {
            assert(front.take(i) =~= outcomes.take(i));
            assert(front[i] == outcomes[i]);
            let a = after_outcomes(r, outcomes.take(i)).action(outcomes[i]);
        }
        lemma_sends_left(r, front);
        assert(front =~= outcomes.take(n));
        let a = after_outcomes(r, outcomes.take(n)).action(outcomes[n]);
    }
}

/// A new login is tried once at most.
pub proof fn law_one_reauthentication(
    r: UploadRetry,
    first: SendOutcome,
    outcomes: Seq<SendOutcome>,
    last: SendOutcome,
)
    requires
        r.action(first) is Reauthenticate,
    ensures
        after_outcomes(r.after(first), outcomes).action(last) !is Reauthenticate,
{
    lemma_reauth_stays(r.after(first), outcomes);
}

proof fn lemma_reauth_stays(r: UploadRetry, outcomes: Seq<SendOutcome>)
    requires
        r.reauth_attempted,
    ensures
        after_outcomes(r, outcomes).reauth_attempted,
    decreases outcomes.len(),
{
    if outcomes.len() > 0 {
        lemma_reauth_stays(r, outcomes.drop_last());
    }
}

/// The change of a session's row. Fields without a value stay as they are.
pub struct SessionPatch {
    pub ended_at: Option<Timestamp>,
    pub status: Option<String>,
    pub participant_count: Option<i32>,
}

impl SessionPatch {
    pub open spec fn sets(
        self,
        status: Seq<char>,
        ended_at: Option<Timestamp>,
        participant_count: Option<i32>,
    ) -> bool {
        &&& self.status is Some
        &&& self.status->0@ == status
        &&& self.ended_at == ended_at
        &&& self.participant_count == participant_count
    }

    /// A new status, and nothing else.
    pub fn update_session_state(status: &str) -> (p: SessionPatch)
        ensures
            p.sets(status@, None, None),
    {
        SessionPatch { ended_at: None, status: Some(owned(status)), participant_count: None }
    }

    /// The session was given up: status and end in one change.
    pub fn abandon_session(now: Timestamp) -> (p: SessionPatch)
        ensures
            p.sets("abandoned"@, Some(now), None),
    {
        SessionPatch {
            ended_at: Some(now),
            status: Some(owned("abandoned")),
            participant_count: None,
        }
    }

    /// Everything is uploaded, and the session is ready to be transcribed.
    pub fn finalize_session(ended_at: Timestamp, participant_count: i32) -> (p: SessionPatch)
        ensures
            p.sets("uploaded"@, Some(ended_at), Some(participant_count)),
    {
        SessionPatch {
            ended_at: Some(ended_at),
            status: Some(owned("uploaded")),
            participant_count: Some(participant_count),
        }
    }
}

/// What the data API tells of a participant, as far as it is looked at.
pub struct ParticipantRow {
    pub id: u128,
    pub pseudo_id: String,
    pub no_llm_training: bool,
    pub no_public_release: bool,
}

/// The first row of a pseudonym is number `i`.
pub open spec fn first_row(rows: Seq<ParticipantRow>, pseudo_id: Seq<char>, i: int) -> bool {
    &&& 0 <= i < rows.len()
    &&& rows[i].pseudo_id@ == pseudo_id
    &&& forall|j: int| 0 <= j < i ==> (#[trigger] rows[j]).pseudo_id@ != pseudo_id
}

/// The position of a user's row among the participants of a session; without
/// one, a 404.
pub fn find_participant(rows: &Vec<ParticipantRow>, pseudo_id: &str) -> (r: Result<usize, ApiError>)
    ensures
        match r {
            Ok(i) => first_row(rows@, pseudo_id@, i as int),
            Err(e) => {
                &&& forall|j: int|
                    0 <= j < rows@.len() ==> (#[trigger] rows@[j]).pseudo_id@ != pseudo_id@
                &&& e matches ApiError::Status { status, body } && status == 404 && body@
                    == "participant not found for user"@
            },
        },
{
    let mut i: usize = 0;
    while i < rows.len()
        invariant
            0 <= i <= rows@.len(),
            forall|j: int| 0 <= j < i ==> (#[trigger] rows@[j]).pseudo_id@ != pseudo_id@,
        decreases rows@.len() - i,
    {
        if same_text(rows[i].pseudo_id.as_str(), pseudo_id) {
            return Ok(i);
        }
        i = i + 1;
    }
    Err(ApiError::Status { status: 404, body: owned("participant not found for user") })
}

/// A user whose data was wiped is blocked.
pub fn is_blocked(data_wiped_at: Option<Timestamp>) -> (b: bool)
    ensures
        b == data_wiped_at is Some,
{
    data_wiped_at.is_some()
}

/// The change of a participant's license flags. Flags without a value stay as
/// they are.
#[derive(Debug, Clone, Copy, PartialEq, Eq, Structural)]
pub struct LicensePatch {
    pub no_llm_training: Option<bool>,
    pub no_public_release: Option<bool>,
}

impl LicensePatch {
    /// The flags after the change.
    pub open spec fn applied(self, flags: (bool, bool)) -> (bool, bool) {
        (
            match self.no_llm_training {
                Some(b) => b,
                None => flags.0,
            },
            match self.no_public_release {
                Some(b) => b,
                None => flags.1,
            },
        )
    }

    /// The flags after the change.
    pub fn apply(self, flags: (bool, bool)) -> (r: (bool, bool))
        ensures
            r == self.applied(flags),
    {
        (
            match self.no_llm_training {
                Some(b) => b,
                None => flags.0,
            },
            match self.no_public_release {
                Some(b) => b,
                None => flags.1,
            },
        )
    }
}

/// The change that flips one flag; `None` for a field that is not a flag.
pub open spec fn toggled(field: Seq<char>, no_llm: bool, no_public: bool) -> Option<LicensePatch> {
    if field == "no_llm_training"@ {
        Some(LicensePatch { no_llm_training: Some(!no_llm), no_public_release: None })
    } else if field == "no_public_release"@ {
        Some(LicensePatch { no_llm_training: None, no_public_release: Some(!no_public) })
    } else {
        None
    }
}

/// The change that flips one flag; `None` for a field that is not a flag, which
/// changes nothing.
pub fn toggle_license_flag(field: &str, no_llm: bool, no_public: bool) -> (p: Option<LicensePatch>)
    ensures
        p == toggled(field@, no_llm, no_public),
{
    if same_text(field, "no_llm_training") {
        Some(LicensePatch { no_llm_training: Some(!no_llm), no_public_release: None })
    } else if same_text(field, "no_public_release") {
        Some(LicensePatch { no_llm_training: None, no_public_release: Some(!no_public) })
    } else {
        None
    }
}

} // verus!
