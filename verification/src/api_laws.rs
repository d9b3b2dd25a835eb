//! What the data API, the gateway and object storage can rely on.

use crate::api_client::{
    first_row, is_success, toggled, ApiError, Endpoint, Header, LicensePatch, ParticipantRow,
    SendOutcome, SessionPatch, UploadAction, UploadRetry,
};
use crate::db::{text_value, toggle_sql, Arg, ArgValue, Statement};
use crate::harness::{field_of, no_session, scope_of, ErrorAnswer};
use crate::ident::uuid_text;
use crate::interactions::{created_ms, remembered};
use crate::session::actor::LicenseField;
use crate::session::ConsentScope;
use crate::storage::s3::{is_uploaded, pause_after, type_of, uploaded, Put, SessionFile};
use crate::text::dec_text;
use crate::time::Timestamp;
use vstd::prelude::*;
use vstd::string::*;

verus! {

/// A reply means success exactly from 200 up to 299.
pub proof fn law_success(status: u16)
    ensures
        is_success(status) <==> 200 <= status && status < 300,
{
}

/// What an outcome leads to: success ends the upload; the first 401 leads to a new
/// login; a server error or a lost request is tried again after one, two and four
/// seconds; everything else is the end.
pub proof fn law_retries(r: UploadRetry, outcome: SendOutcome)
    requires
        r.retries <= 3,
    ensures
        ({
            let worth_it = outcome is Network || outcome->status >= 500;
            match r.action(outcome) {
                UploadAction::Done => outcome is Status && 200 <= outcome->status < 300,
                UploadAction::Reauthenticate => outcome == (SendOutcome::Status { status: 401 })
                    && !r.reauth_attempted,
                UploadAction::RetryAfter { secs } => worth_it && ((r.retries == 0 && secs == 1) || (
                r.retries == 1 && secs == 2) || (r.retries == 2 && secs == 4)),
                UploadAction::Fail => {
                    &&& !(outcome is Status && 200 <= outcome->status < 300)
                    &&& !(outcome == (SendOutcome::Status { status: 401 }) && !r.reauth_attempted)
                    &&& !(worth_it && r.retries < 3)
                },
            }
        }),
{
}

/// A retry uses up one of three, a new login the only one; nothing else uses up
/// anything.
pub proof fn law_retries_are_counted(r: UploadRetry, outcome: SendOutcome)
    requires
        r.retries <= 3,
    ensures
        ({
            let a = r.action(outcome);
            let then = r.after(outcome);
            &&& then.retries == r.retries + (if a is RetryAfter {
                1int
            } else {
                0
            })
            &&& then.reauth_attempted <==> r.reauth_attempted || a is Reauthenticate
        }),
{
}

/// What an error says.
pub proof fn law_error_texts(e: ApiError)
    ensures
        match e {
            ApiError::Http { message } => e.text() == "HTTP error: "@ + message@,
            ApiError::Status { status, body } => e.text() == "API returned "@ + (dec_text(
                status as nat,
            ) + (": "@ + body@)),
        },
{
    match e {
        ApiError::Status { status, body } => {
            assert(e.text() =~= "API returned "@ + (dec_text(status as nat) + (": "@ + body@)));
        },
        _ => {},
    }
}

/// To flip a flag is to negate it and to leave the other alone; there is no other
/// field.
pub proof fn law_flip(field: Seq<char>, flags: (bool, bool))
    ensures
        toggled(field, flags.0, flags.1) is Some <==> field == "no_llm_training"@ || field
            == "no_public_release"@,
        field == "no_llm_training"@ ==> toggled(field, flags.0, flags.1)->0.applied(flags) == (
            !flags.0,
            flags.1,
        ),
        field == "no_public_release"@ ==> toggled(field, flags.0, flags.1)->0.applied(flags) == (
            flags.0,
            !flags.1,
        ),
{
    reveal_strlit("no_llm_training");
    reveal_strlit("no_public_release");
    assert("no_llm_training"@.len() == 15);
    assert("no_public_release"@.len() == 17);
}

/// A change sets the flags that it names and no other.
pub proof fn law_patch(p: LicensePatch, flags: (bool, bool))
    ensures
        p.no_llm_training is Some ==> p.applied(flags).0 == p.no_llm_training->0,
        p.no_llm_training is None ==> p.applied(flags).0 == flags.0,
        p.no_public_release is Some ==> p.applied(flags).1 == p.no_public_release->0,
        p.no_public_release is None ==> p.applied(flags).1 == flags.1,
{
}

/// The ids that are remembered after all of `history` came in.
pub open spec fn remembered_of(history: Seq<u64>) -> Seq<u64>
    decreases history.len(),
{
    if history.len() == 0 {
        seq![]
    } else {
        remembered(remembered_of(history.drop_last()), history.last())
    }
}

/// The last 128 interactions are remembered, in order, and no others.
pub proof fn law_last_interactions_are_remembered(history: Seq<u64>)
    requires
        history.no_duplicates(),
    ensures
        remembered_of(history) == (if history.len() <= 128 {
            history
        } else {
            history.skip(history.len() - 128)
        }),
    decreases history.len(),
{
    if history.len() > 0 {
        let front = history.drop_last();
        let id = history.last();
        assert(id == history[history.len() - 1]);
        assert forall|i: int, j: int| 0 <= i < j < front.len() implies front[i] != front[j] by {
            assert(history[i] != history[j]);
        }
        law_last_interactions_are_remembered(front);
        let ids = remembered_of(front);
        assert(!ids.contains(id)) by {
            if ids.contains(id) {
                let i = choose|i: int| 0 <= i < ids.len() && ids[i] == id;
                if front.len() <= 128 {
                    assert(history[i] == history[history.len() - 1]);
                } else {
                    assert(history[i + (front.len() - 128)] == history[history.len() - 1]);
                }
            }
        }
        if history.len() <= 128 {
            assert(remembered_of(history) =~= history);
        } else {
            assert(remembered_of(history) =~= history.skip(history.len() - 128));
        }
    } else {
        assert(remembered_of(history) =~= history);
    }
}

/// An id carries the milliseconds since the start of 2015 above its lowest 22 bits.
pub proof fn law_created(id: u64)
    ensures
        (created_ms(id) - 1420070400000) * 4194304 <= id < (created_ms(id) - 1420070400000 + 1)
            * 4194304,
{
}

/// The words for choices and restrictions stand for them, and no other words do.
pub proof fn law_words(scope: ConsentScope, word: Seq<char>)
    ensures
        scope_of(scope.word()) == Some(scope),
        scope_of(word) is Some ==> scope_of(word)->0.word() == word,
        field_of(word) is Some <==> word == "no_llm_training"@ || word == "no_public_release"@,
        field_of("no_llm_training"@) == Some(LicenseField::NoLlmTraining),
        field_of("no_public_release"@) == Some(LicenseField::NoPublicRelease),
{
    reveal_strlit("full");
    reveal_strlit("decline");
    reveal_strlit("no_llm_training");
    reveal_strlit("no_public_release");
    assert("full"@.len() == 4);
    assert("decline"@.len() == 7);
    assert("no_llm_training"@.len() == 15);
    assert("no_public_release"@.len() == 17);
}

/// Each license flag has a statement of its own, and nothing else has one.
pub proof fn law_toggle_statements(field: Seq<char>)
    ensures
        toggle_sql(field) is Some <==> field == "no_llm_training"@ || field
            == "no_public_release"@,
        toggle_sql("no_llm_training"@) == Some(
            "UPDATE session_participants SET no_llm_training = NOT no_llm_training WHERE session_id = $1 AND user_id = $2"@,
        ),
        toggle_sql("no_public_release"@) == Some(
            "UPDATE session_participants SET no_public_release = NOT no_public_release WHERE session_id = $1 AND user_id = $2"@,
        ),
{
    reveal_strlit("no_llm_training");
    reveal_strlit("no_public_release");
    assert("no_llm_training"@.len() == 15);
    assert("no_public_release"@.len() == 17);
}

/// A statement binds its arguments in order.
pub proof fn law_statement(st: Statement, sql: Seq<char>, args: Seq<ArgValue>, i: int)
    requires
        st.binds(sql, args),
        0 <= i < args.len(),
    ensures
        st.sql@ == sql,
        st.args@.len() == args.len(),
        match st.args@[i] {
            Arg::Id { id } => args[i] == ArgValue::Id(id),
            Arg::Big { n } => args[i] == ArgValue::Big(n),
            Arg::Small { n } => args[i] == ArgValue::Small(n),
            Arg::Flag { on } => args[i] == ArgValue::Flag(on),
            Arg::At { time } => args[i] == ArgValue::At(time),
            Arg::Text { text: Some(s) } => args[i] == ArgValue::Text(Some(s@)),
            Arg::Text { text: None } => args[i] == ArgValue::Text(None),
        },
{
    let values = st.args@.map_values(|a: Arg| a@);
    assert(values.len() == st.args@.len());
    assert(values[i] == st.args@[i]@);
}

/// File `i` is one that is uploaded: a file, and no raw audio.
pub open spec fn goes_up(files: Seq<SessionFile>, i: int) -> bool {
    &&& 0 <= i < files.len()
    &&& files[i].is_file
    &&& !(files[i].extension is Some && files[i].extension->0@ == "pcm"@)
}

proof fn lemma_uploaded_from(files: Seq<SessionFile>) -> (from: Seq<int>)
    ensures
        uploaded(files).len() == from.len(),
        forall|a: int, b: int| 0 <= a < b < from.len() ==> from[a] < from[b],
        forall|i: int| #[trigger] goes_up(files, i) <==> from.contains(i),
        forall|n: int|
            0 <= n < from.len() ==> #[trigger] uploaded(files)[n] == files[from[n]],
    decreases files.len(),
{
    reveal(Seq::filter);
    if files.len() == 0 {
        Seq::empty()
    } else {
        let front = files.drop_last();
        let n = files.len() - 1;
        let before = lemma_uploaded_from(front);
        assert(files.last() == files[n]);
        assert(is_uploaded(files[n]) == goes_up(files, n));
        assert forall|a: int| 0 <= a < before.len() implies 0 <= #[trigger] before[a] < n
            && front[before[a]] == files[before[a]] by {
            assert(before.contains(before[a]));
            assert(goes_up(front, before[a]));
        }
        let from = if goes_up(files, n) {
            before.push(n)
        } else {
            before
        };
        assert forall|i: int| #[trigger] goes_up(files, i) <==> from.contains(i) by {
            if 0 <= i < n {
                assert(front[i] == files[i]);
                assert(goes_up(front, i) == goes_up(files, i));
                if before.contains(i) {
                    let a = choose|a: int| 0 <= a < before.len() && before[a] == i;
                    assert(from[a] == i);
                }
            }
            if i == n && goes_up(files, n) {
                assert(from[before.len() as int] == n);
            }
            if from.contains(i) {
                let a = choose|a: int| 0 <= a < from.len() && from[a] == i;
                if a < before.len() {
                    assert(before[a] == i);
                    assert(before.contains(i));
                    assert(goes_up(front, i));
                }
            }
        }
        from
    }
}

/// Every file but raw audio is uploaded, in order and once, below the session's
/// place, and nothing else is.
pub proof fn law_uploads(
    plan: Seq<Put>,
    files: Seq<SessionFile>,
    guild_id: u64,
    session_id: Seq<char>,
) -> (from: Seq<int>)
    requires
        plan.len() == uploaded(files).len(),
        forall|i: int|
            0 <= i < plan.len() ==> (#[trigger] plan[i]).uploads(
                uploaded(files)[i],
                guild_id,
                session_id,
            ),
    ensures
        plan.len() == from.len(),
        forall|a: int, b: int| 0 <= a < b < from.len() ==> from[a] < from[b],
        forall|i: int| #[trigger] goes_up(files, i) <==> from.contains(i),
        forall|n: int|
            0 <= n < from.len() ==> {
                let f = files[from[n]];
                let p = #[trigger] plan[n];
                &&& p.relative@ == f.relative@
                &&& p.key@ == "sessions/"@ + dec_text(guild_id as nat) + "/"@ + session_id + "/"@
                    + f.relative@
            },
{
    let from = lemma_uploaded_from(files);
    assert forall|n: int| 0 <= n < from.len() implies {
        let f = files[from[n]];
        let p = #[trigger] plan[n];
        &&& p.relative@ == f.relative@
        &&& p.key@ == "sessions/"@ + dec_text(guild_id as nat) + "/"@ + session_id + "/"@
            + f.relative@
    } by {
        assert(plan[n].uploads(uploaded(files)[n], guild_id, session_id));
    }
    from
}

/// What a file is declared as follows from its extension.
pub proof fn law_content_types(f: SessionFile)
    ensures
        f.extension is None ==> type_of(f) == "application/octet-stream"@,
        f.extension is Some && f.extension->0@ == "json"@ ==> type_of(f) == "application/json"@,
        f.extension is Some && f.extension->0@ == "flac"@ ==> type_of(f) == "audio/flac"@,
        f.extension is Some && f.extension->0@ == "md"@ ==> type_of(f) == "text/markdown"@,
        f.extension is Some && f.extension->0@ != "json"@ && f.extension->0@ != "flac"@
            && f.extension->0@ != "md"@ ==> type_of(f) == "application/octet-stream"@,
{
    reveal_strlit("json");
    reveal_strlit("flac");
    reveal_strlit("md");
    assert("json"@[0] == 'j');
    assert("flac"@[0] == 'f');
    assert("md"@.len() == 2);
    assert("json"@.len() == 4);
    assert("flac"@.len() == 4);
}

/// A file is tried three times, with pauses of one and two seconds.
pub proof fn law_pauses()
    ensures
        pause_after(1) == Some(1u64),
        pause_after(2) == Some(2u64),
        forall|n: u32| 3 <= n ==> #[trigger] pause_after(n) is None,
{
    vstd::arithmetic::power2::lemma2_to64();
}

/// What belongs to a session or to a user lies below its place.
pub proof fn law_places(session: u128, participant: u128, pseudo_id: String)
    ensures
        ({
            let one = (Endpoint::Session { session }).path();
            let people = (Endpoint::Participants { session }).path();
            &&& Endpoint::Auth.path() == "/internal/auth"@
            &&& Endpoint::Heartbeat.path() == "/internal/heartbeat"@
            &&& Endpoint::Sessions.path() == "/internal/sessions"@
            &&& Endpoint::Users.path() == "/internal/users"@
            &&& one == Endpoint::Sessions.path().push('/') + uuid_text(session)
            &&& people == one + "/participants"@
            &&& (Endpoint::ParticipantsBatch { session }).path() == people + "/batch"@
            &&& (Endpoint::Metadata { session }).path() == one + "/metadata"@
            &&& (Endpoint::Chunk { session, pseudo_id }).path() == one + "/audio/"@ + pseudo_id@
                + "/chunk"@
            &&& (Endpoint::DisplayNames { pseudo_id }).path() == Endpoint::Users.path().push('/')
                + pseudo_id@ + "/display_names"@
            &&& (Endpoint::Consent { participant }).path() == "/internal/participants/"@ + (
            uuid_text(participant) + "/consent"@)
            &&& (Endpoint::License { participant }).path() == "/internal/participants/"@ + (
            uuid_text(participant) + "/license"@)
        }),
{
    reveal_strlit("/internal/sessions");
    reveal_strlit("/internal/sessions/");
    reveal_strlit("/internal/users");
    reveal_strlit("/internal/users/");
    reveal_strlit("/participants");
    reveal_strlit("/participants/batch");
    reveal_strlit("/batch");
    assert("/internal/sessions/"@ =~= "/internal/sessions"@.push('/'));
    assert("/internal/users/"@ =~= "/internal/users"@.push('/'));
    assert("/participants/batch"@ =~= "/participants"@ + "/batch"@);
    assert(Endpoint::ParticipantsBatch { session }.path() =~= Endpoint::Participants {
        session,
    }.path() + "/batch"@);
    assert(Endpoint::Consent { participant }.path() =~= "/internal/participants/"@ + (uuid_text(
        participant,
    ) + "/consent"@));
    assert(Endpoint::License { participant }.path() =~= "/internal/participants/"@ + (uuid_text(
        participant,
    ) + "/license"@));
}

/// What is set in a session's row, what a header says and what an error answers is
/// what it reads.
pub proof fn law_what_is_said(
    p: SessionPatch,
    status: Seq<char>,
    ended_at: Option<Timestamp>,
    count: Option<i32>,
    h: Header,
    name: Seq<char>,
    value: Seq<char>,
    e: ErrorAnswer,
    code: u16,
    error: Seq<char>,
)
    ensures
        p.sets(status, ended_at, count) <==> p.status is Some && p.status->0@ == status
            && p.ended_at == ended_at && p.participant_count == count,
        h.says(name, value) <==> h.name@ == name && h.value@ == value,
        e.says(code, error) <==> e.status == code && e.error@ == error,
        no_session(e) <==> e.status == 404 && e.error@ == "no active session in guild"@,
{
}

/// The row of a pseudonym is the first that bears it, and a missing text is bound as
/// missing.
pub proof fn law_rows_and_texts(
    rows: Seq<ParticipantRow>,
    pseudo_id: Seq<char>,
    i: int,
    text: Option<String>,
)
    ensures
        first_row(rows, pseudo_id, i) ==> 0 <= i < rows.len() && rows[i].pseudo_id@ == pseudo_id,
        first_row(rows, pseudo_id, i) ==> forall|j: int|
            0 <= j < i ==> (#[trigger] rows[j]).pseudo_id@ != pseudo_id,
        text is None ==> text_value(text) == ArgValue::Text(None),
        text is Some ==> text_value(text) == ArgValue::Text(Some(text->0@)),
{
}

} // verus!
