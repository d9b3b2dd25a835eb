//! What a session does for its participants, command by command, in words of
//! their records, their capture tasks and the data API.

use crate::plain::nanos;
use crate::roll::Record;
use crate::roll_laws::{alone, law_quorum, law_release_is_full_consent};
use crate::session::actor::{
    accepted, accepting, flipped, quorum_failed, rows_assigned, timer_change, undeclined, with_cancel, Actor,
    ConsentOutcome, Effect, EnrolStep, LicenseField, LicenseStep, SessionError, SessionSnapshot,
};
use crate::session::capture::ParticipantCmd;
use crate::session::{
    promoted, Button, ButtonLook, ConsentScope, ParticipantConsent, Phase, Session,
};
use crate::storage::bundle;
use crate::storage::bundle::{pseudonym, ConsentRecord};
use crate::time::Timestamp;
use vstd::prelude::*;
use vstd::string::*;

verus! {

/// What is stored of a choice is that choice.
pub proof fn law_stored_choice(p: ParticipantConsent)
    ensures
        p.choice() == Some(bundle::ConsentScope::Full) <==> p.scope == Some(ConsentScope::Full),
        p.choice() == Some(bundle::ConsentScope::Decline) <==> p.scope == Some(
            ConsentScope::Decline,
        ),
        p.choice() is None <==> p.scope is None,
        p.choice() != Some(bundle::ConsentScope::DeclineAudio),
        p.user() == p.user_id,
        p.name() == p.display_name@,
        p.chosen_at() == p.consented_at,
        p.joined_late() == p.mid_session_join,
{
}

/// The consent record of a session releases a participant's audio exactly if they
/// accepted.
pub proof fn law_session_releases_accepted_audio(s: Session, r: ConsentRecord, user: u64, i: int)
    requires
        s.choices_in(r),
        s.participants@.contains_key(user),
        alone(s.participants@, user),
        0 <= i < r.participants@.len(),
        r.participants@[i].0@ == pseudonym(s.participants@[user].user_id),
    ensures
        r.participants@[i].1.audio_release <==> s.participants@[user].scope == Some(
            ConsentScope::Full,
        ),
        r.session_id@ == s.id@,
{
    law_release_is_full_consent(r, s.id@, s.participants@, user);
    law_stored_choice(s.participants@[user]);
}

/// A choice counts once, of those who take part: it is noted with its time, it
/// sets the participant's state, and nothing else of any record changes. Others
/// are refused, and nothing changes.
pub proof fn law_choice_is_recorded(
    a: Actor,
    then: Actor,
    user: u64,
    scope: ConsentScope,
    now: Timestamp,
    answer: Result<ConsentOutcome, SessionError>,
    effects: Seq<Effect>,
)
    requires
        a.consent_applied(then, user, scope, now, answer, effects),
    ensures
        ({
            let before = a.session.participants@;
            let after = then.session.participants@;
            &&& answer is Ok <==> before.contains_key(user) && before[user].scope is None
            &&& !before.contains_key(user) ==> answer == Err::<ConsentOutcome, SessionError>(
                SessionError::NotParticipant,
            )
            &&& before.contains_key(user) && before[user].scope is Some ==> answer == Err::<
                ConsentOutcome,
                SessionError,
            >(SessionError::AlreadyResponded)
            &&& answer is Err ==> after == before && effects.len() == 0
                && then.expected_user_ids@ == a.expected_user_ids@ && then.timer_running
                == a.timer_running
            &&& answer is Ok ==> {
                &&& after[user].scope == Some(scope)
                &&& after[user].consented_at == Some(now)
                &&& scope is Full ==> after[user].state is Accepted
                &&& scope is Decline ==> after[user].state is Declined
                &&& after[user].user_id == before[user].user_id
                &&& after[user].display_name == before[user].display_name
                &&& after[user].mid_session_join == before[user].mid_session_join
                &&& after[user].participant_uuid == before[user].participant_uuid
            }
            &&& forall|u: u64| #[trigger] after.contains_key(u) <==> before.contains_key(u)
            &&& forall|u: u64|
                u != user && #[trigger] before.contains_key(u) ==> after[u] == before[u]
            &&& forall|u: u64| #[trigger]
                then.expected_user_ids@.contains(u) <==> a.expected_user_ids@.contains(u) && !(
                answer is Ok && scope is Decline && u == user)
        }),
{
}

/// The choice that completes the roll ends the session exactly if too few accepted
/// or, where all have to accept, somebody declined. Before everyone has answered
/// no choice ends it.
#[verifier::rlimit(40)]
pub proof fn law_last_choice_decides(
    a: Actor,
    then: Actor,
    user: u64,
    scope: ConsentScope,
    now: Timestamp,
    outcome: ConsentOutcome,
    effects: Seq<Effect>,
    accepters: Set<u64>,
)
    requires
        a.consent_applied(then, user, scope, now, Ok(outcome), effects),
        then.session.participants@.dom().finite(),
        forall|k: u64| #[trigger]
            accepters.contains(k) <==> then.session.participants@.contains_key(k)
                && then.session.participants@[k].scope == Some(ConsentScope::Full),
    ensures
        ({
            let m = then.session.participants@;
            outcome is QuorumFailed <==> {
                &&& forall|k: u64| #[trigger] m.contains_key(k) ==> m[k].scope is Some
                &&& accepters.len() < a.session.min_participants || (a.session.require_all
                    && exists|k: u64| #[trigger]
                    m.contains_key(k) && m[k].scope == Some(ConsentScope::Decline))
            }
        }),
{
    let m = then.session.participants@;
    assert forall|k: u64| #[trigger] m.contains_key(k) implies (m[k].choice() is Some <==> m[k].scope is Some)
        && (m[k].choice() == Some(bundle::ConsentScope::Full) <==> m[k].scope == Some(
        ConsentScope::Full,
    )) && (m[k].choice() == Some(bundle::ConsentScope::Decline) <==> m[k].scope == Some(
        ConsentScope::Decline,
    )) by {
        law_stored_choice(m[k]);
    }
    assert forall|k: u64| #[trigger] accepters.contains(k) <==> m.contains_key(k) && m[k].choice()
        == Some(bundle::ConsentScope::Full) by {
        if m.contains_key(k) {
            law_stored_choice(m[k]);
        }
    }
    law_quorum(m, a.session.min_participants, a.session.require_all, accepters);
}

/// What follows a choice that counts, effect by effect. While recording the data
/// API is told, by the participant's row where there is one; an acceptance flushes
/// the backlog, opens the way to the mix and clears the license flags of the row; a
/// decline drops what is cached. Before, a decline drops what is cached and nothing
/// else happens. The auto-stop timer starts or stops as the channel empties or
/// fills.
#[verifier::rlimit(40)]
pub proof fn law_effects_of_choice(
    a: Actor,
    then: Actor,
    user: u64,
    scope: ConsentScope,
    now: Timestamp,
    outcome: ConsentOutcome,
    effects: Seq<Effect>,
    e: Effect,
)
    requires
        a.wf(),
        a.consent_applied(then, user, scope, now, Ok(outcome), effects),
    ensures
        ({
            let recording = a.session.phase is Recording;
            let row = a.session.participants@[user].participant_uuid;
            let has_task = a.tasks@.contains(user);
            effects.contains(e) <==> match e {
                Effect::PatchConsent { participant, scope: told } => recording && row == Some(
                    participant,
                ) && told == scope,
                Effect::PatchConsentOfUser { session, user: whose, scope: told } => recording
                    && row is None && a.session_uuid == Some(session) && whose == user && told
                    == scope,
                Effect::ClearLicenseFlags { participant } => recording && scope is Full && row
                    == Some(participant),
                Effect::Tell { user: whom, cmd } => whom == user && has_task && (if recording {
                    match scope {
                        ConsentScope::Full => cmd is LateAccept || cmd == (
                        ParticipantCmd::GateOpened {
                            accepted: true,
                            session_uuid: a.session_uuid->0,
                            mix: true,
                        }),
                        ConsentScope::Decline => cmd is LateDecline,
                    }
                } else {
                    scope is Decline && cmd is DropCache
                }),
                Effect::StartTimer => !a.timer_running && then.timer_running,
                Effect::AbortTimer => a.timer_running && !then.timer_running,
                Effect::SpawnTask { .. } => false,
                Effect::Cancel => false,
            }
        }),
{
    let p1 = a.consent_traffic(user, scope);
    let p2 = a.late_commands(user, scope);
    let p3 = a.default_flags(user, scope);
    let p4 = a.early_drop(user, scope);
    let p5 = timer_change(a.timer_running, then.deserted());
    assert(effects == p1 + p2 + p3 + p4 + p5);
    lemma_in_parts(p1, p2, p3, p4, p5, e);
    lemma_one(p1, e);
    lemma_one(p3, e);
    lemma_one(p4, e);
    lemma_one(p5, e);
    lemma_two(p2, e);
}

proof fn lemma_in_parts(
    p1: Seq<Effect>,
    p2: Seq<Effect>,
    p3: Seq<Effect>,
    p4: Seq<Effect>,
    p5: Seq<Effect>,
    e: Effect,
)
    ensures
        (p1 + p2 + p3 + p4 + p5).contains(e) <==> p1.contains(e) || p2.contains(e) || p3.contains(e)
            || p4.contains(e) || p5.contains(e),
{
    lemma_in_sum(p1, p2, e);
    lemma_in_sum(p1 + p2, p3, e);
    lemma_in_sum(p1 + p2 + p3, p4, e);
    lemma_in_sum(p1 + p2 + p3 + p4, p5, e);
}

proof fn lemma_in_sum(a: Seq<Effect>, b: Seq<Effect>, e: Effect)
    ensures
        (a + b).contains(e) <==> a.contains(e) || b.contains(e),
{
    let s = a + b;
    if a.contains(e) {
        let i = choose|i: int| 0 <= i < a.len() && a[i] == e;
        assert(s[i] == e);
    }
    if b.contains(e) {
        let i = choose|i: int| 0 <= i < b.len() && b[i] == e;
        assert(s[a.len() + i] == e);
    }
    if s.contains(e) {
        let i = choose|i: int| 0 <= i < s.len() && s[i] == e;
        if i < a.len() {
            assert(a[i] == e);
        } else {
            assert(b[i - a.len()] == e);
        }
    }
}

proof fn lemma_one(p: Seq<Effect>, e: Effect)
    requires
        p.len() <= 1,
    ensures
        p.contains(e) <==> p.len() == 1 && p[0] == e,
{
    if p.len() == 1 && p[0] == e {
        assert(p.contains(e));
    }
}

proof fn lemma_two(p: Seq<Effect>, e: Effect)
    requires
        p.len() <= 2,
    ensures
        p.contains(e) <==> (p.len() >= 1 && p[0] == e) || (p.len() == 2 && p[1] == e),
{
    if p.len() >= 1 && p[0] == e {
        assert(p.contains(e));
    }
    if p.len() == 2 && p[1] == e {
        assert(p.contains(e));
    }
}

/// The channel is deserted exactly if everybody in it is a participant who
/// declined.
pub proof fn law_deserted(a: Actor)
    ensures
        a.deserted() <==> forall|u: u64| #[trigger]
            a.humans_in_channel@.contains(u) ==> a.session.participants@.contains_key(u)
                && a.session.participants@[u].state is Declined,
{
    let left = accepting(a.humans_in_channel@, a.session.participants@);
    if a.deserted() {
        assert forall|u: u64| #[trigger] a.humans_in_channel@.contains(u) implies
            a.session.participants@.contains_key(u) && a.session.participants@[u].state is Declined by {
            assert(!left.contains(u));
        }
    }
    if forall|u: u64| #[trigger]
        a.humans_in_channel@.contains(u) ==> a.session.participants@.contains_key(u)
            && a.session.participants@[u].state is Declined {
        assert(left =~= Set::<u64>::empty());
    }
}

/// After a choice that counts and after somebody's move, the auto-stop timer runs
/// exactly if everybody in the channel has declined.
pub proof fn law_timer_runs_while_deserted(
    a: Actor,
    then: Actor,
    user: u64,
    scope: ConsentScope,
    now: Timestamp,
    outcome: ConsentOutcome,
    effects: Seq<Effect>,
)
    requires
        a.consent_applied(then, user, scope, now, Ok(outcome), effects),
    ensures
        then.timer_running <==> forall|u: u64| #[trigger]
            a.humans_in_channel@.contains(u) ==> then.session.participants@.contains_key(u)
                && then.session.participants@[u].state is Declined,
{
    law_deserted(then);
}

/// People are in the channel from the moment they enter it until they leave; the
/// bot does not count.
pub proof fn law_moves(
    a: Actor,
    then: Actor,
    new_channel: Option<u64>,
    user: u64,
    is_bot: bool,
    effects: Seq<Effect>,
)
    requires
        a.voice_applied(then, new_channel, user, is_bot, effects),
    ensures
        is_bot ==> effects.len() == 0 && then.timer_running == a.timer_running,
        !is_bot ==> (then.humans_in_channel@.contains(user) <==> new_channel == Some(
            a.session.channel_id,
        )),
        forall|u: u64|
            u != user || is_bot ==> (#[trigger] then.humans_in_channel@.contains(u)
                <==> a.humans_in_channel@.contains(u)),
        !is_bot ==> (then.timer_running <==> forall|u: u64| #[trigger]
            then.humans_in_channel@.contains(u) ==> a.session.participants@.contains_key(u)
                && a.session.participants@[u].state is Declined),
        then.session == a.session,
        forall|e: Effect| #[trigger]
            effects.contains(e) ==> e is StartTimer || e is AbortTimer,
{
    law_deserted(then);
    assert forall|e: Effect| #[trigger] effects.contains(e) implies e is StartTimer
        || e is AbortTimer by {
        lemma_one(effects, e);
    }
}

/// Who is enrolled takes part without an answer, and nobody else's record changes;
/// who takes part already stays as they are. Before there is a row for the session
/// a capture task starts at once; afterwards the data API is asked for the user's
/// row first.
pub proof fn law_enrolment(
    a: Actor,
    then: Actor,
    user: u64,
    name: Seq<char>,
    step: EnrolStep,
)
    requires
        a.enrol_applied(then, user, name, step),
    ensures
        ({
            let before = a.session.participants@;
            let after = then.session.participants@;
            &&& after.contains_key(user)
            &&& forall|u: u64| #[trigger] after.contains_key(u) <==> before.contains_key(u) || u == user
            &&& forall|u: u64| #[trigger] before.contains_key(u) ==> after[u] == before[u]
            &&& !before.contains_key(user) ==> {
                &&& after[user].user_id == user
                &&& after[user].display_name@ == name
                &&& after[user].scope is None
                &&& after[user].state is Pending
                &&& !after[user].mid_session_join
                &&& after[user].participant_uuid is None
                &&& after[user].consented_at is None
            }
            &&& step is AddRow <==> a.session_uuid is Some
            &&& match step {
                EnrolStep::AddRow { session, user: whose, mid_session_join, display_name } => {
                    &&& a.session_uuid == Some(session)
                    &&& whose == user
                    &&& mid_session_join
                    &&& display_name@ == name
                    &&& then.tasks@ == a.tasks@
                },
                EnrolStep::Enrolled { row, effects } => {
                    &&& row == 0
                    &&& then.tasks@.contains(user)
                    &&& then.expected_user_ids@.contains(user)
                    &&& effects@.len() > 0
                    &&& effects@[0] == (Effect::SpawnTask { user })
                    &&& forall|i: int|
                        0 < i < effects@.len() ==> (#[trigger] effects@[i]) is StartTimer
                            || effects@[i] is AbortTimer
                },
            }
        }),
{
}

/// The capture task of a user who joins while recording is told whether they have
/// accepted, and drops everything if they declined.
pub proof fn law_joining(a: Actor, user: u64, session: u128)
    requires
        a.session_uuid == Some(session),
    ensures
        ({
            let m = a.session.participants@;
            let told = a.joining_commands(user);
            &&& told.len() == 1
            &&& m.contains_key(user) && m[user].state is Declined ==> told[0] == (Effect::Tell {
                user,
                cmd: ParticipantCmd::LateDecline,
            })
            &&& m.contains_key(user) && m[user].state is Accepted ==> told[0] == (Effect::Tell {
                user,
                cmd: ParticipantCmd::GateOpened { accepted: true, session_uuid: session, mix: true },
            })
            &&& !m.contains_key(user) || m[user].state is Pending ==> told[0] == (Effect::Tell {
                user,
                cmd: ParticipantCmd::GateOpened {
                    accepted: false,
                    session_uuid: session,
                    mix: false,
                },
            })
        }),
{
}

/// A license request changes one flag of the participant's own row, to the value
/// asked for. Without a row, or before the session has one, it is refused.
pub proof fn law_license_request(a: Actor, user: u64, field: LicenseField, value: bool)
    ensures
        ({
            let m = a.session.participants@;
            let known = a.session_uuid is Some && m.contains_key(user)
                && m[user].participant_uuid is Some;
            match a.license_step(user, field, value) {
                LicenseStep::Refused { error } => !known && error is NotParticipant,
                LicenseStep::Patch { participant, no_llm_training, no_public_release } => {
                    &&& known
                    &&& m[user].participant_uuid == Some(participant)
                    &&& match field {
                        LicenseField::NoLlmTraining => no_llm_training == Some(value)
                            && no_public_release is None,
                        LicenseField::NoPublicRelease => no_public_release == Some(value)
                            && no_llm_training is None,
                    }
                },
            }
        }),
{
}

/// A click on a license button flips that flag and leaves the other; a second click
/// on it undoes the first.
pub proof fn law_license_toggle(a: Actor, user: u64, field: LicenseField)
    ensures
        a.toggle_answer(user, field) is Ok <==> a.session_uuid is Some
            && a.session.participants@.contains_key(user),
        a.toggle_answer(user, field) matches Ok(t) ==> {
            let shown = if a.license_flags@.contains_key(user) {
                a.license_flags@[user]
            } else {
                (false, false)
            };
            &&& (t.no_llm_training == shown.0) <==> field is NoPublicRelease
            &&& (t.no_public_release == shown.1) <==> field is NoLlmTraining
            &&& t.row == a.session.participants@[user].participant_uuid
        },
        a.toggle_answer(user, field) matches Err(e) ==> e is NotParticipant,
        forall|flags: (bool, bool)|
            flipped(field, #[trigger] flipped(field, flags)) == flags,
{
}

/// Only who started a session stops it, and only while it waits or records.
pub proof fn law_stop(a: Actor, initiator: u64)
    ensures
        a.stop_answer(initiator) is Ok <==> a.session.initiator_id == initiator && (
        a.session.phase is AwaitingStabilization || a.session.phase is Recording),
        a.stop_answer(initiator) == Err::<(), SessionError>(SessionError::NotInitiator)
            <==> a.session.initiator_id != initiator,
        with_cancel(seq![], true) == seq![Effect::Cancel],
        with_cancel(seq![], false) == Seq::<Effect>::empty(),
{
    assert(with_cancel(seq![], true) =~= seq![Effect::Cancel]);
}

/// A snapshot shows the session: it is recording exactly in that phase, and counts
/// everyone who takes part.
pub proof fn law_snapshot(a: Actor, s: SessionSnapshot)
    requires
        a.shown_by(s),
    ensures
        s.session_id@ == a.session.id@,
        s.guild_id == a.session.guild_id,
        s.recording <==> a.session.phase is Recording,
        s.stable <==> a.session.phase is Recording,
        s.participant_count == a.session.participants@.len(),
        s.phase_label@ == (match a.session.phase {
            Phase::AwaitingStabilization { .. } => "awaiting_stabilization"@,
            Phase::Recording { .. } => "recording"@,
            Phase::Finalizing => "finalizing"@,
            Phase::Restarting => "restarting"@,
            Phase::Cancelled => "cancelled"@,
        }),
{
}

/// Who has not declined, who has accepted, and who of the people in the channel has
/// not declined.
pub proof fn law_standings(m: Map<u64, ParticipantConsent>, humans: Set<u64>, user: u64)
    ensures
        undeclined(m).contains(user) <==> m.contains_key(user) && (m[user].state is Pending
            || m[user].state is Accepted),
        accepted(m).contains(user) <==> m.contains_key(user) && m[user].state is Accepted,
        accepting(humans, m).contains(user) <==> humans.contains(user) && (!m.contains_key(user)
            || m[user].state is Pending || m[user].state is Accepted),
{
}

/// Each row goes to the user at its place in the list, and nothing else of any
/// record changes.
pub proof fn law_rows_go_to_their_users(
    m: Map<u64, ParticipantConsent>,
    users: Seq<u64>,
    rows: Seq<u128>,
    user: u64,
)
    requires
        users.no_duplicates(),
        m.contains_key(user),
    ensures
        ({
            let after = rows_assigned(m, users, rows);
            &&& after.contains_key(user)
            &&& forall|i: int|
                0 <= i < users.len() && i < rows.len() && #[trigger] users[i] == user ==> after[user]
                    == (ParticipantConsent { participant_uuid: Some(rows[i]), ..m[user] })
            &&& (forall|i: int|
                0 <= i < users.len() && i < rows.len() ==> #[trigger] users[i] != user)
                ==> after[user] == m[user]
        }),
    decreases users.len(),
{
    if users.len() > 0 {
        let front = users.drop_last();
        let n = users.len() - 1;
        assert forall|i: int, j: int| 0 <= i < j < front.len() implies front[i] != front[j] by {
            assert(users[i] != users[j]);
        }
        law_rows_go_to_their_users(m, front, rows, user);
        let before = rows_assigned(m, front, rows);
        let after = rows_assigned(m, users, rows);
        if n < rows.len() && users[n] == user {
            assert forall|i: int| 0 <= i < front.len() && i < rows.len() implies #[trigger] front[i]
                != user by {
                assert(users[i] != users[n]);
            }
            assert(before[user] == m[user]);
            assert forall|i: int|
                0 <= i < users.len() && i < rows.len() && #[trigger] users[i] == user implies after[user]
                == (ParticipantConsent { participant_uuid: Some(rows[i]), ..m[user] }) by {
                if i < n {
                    assert(users[i] != users[n]);
                }
            }
        } else {
            assert(after[user] == before[user]);
            assert forall|i: int|
                0 <= i < users.len() && i < rows.len() && #[trigger] users[i] == user implies after[user]
                == (ParticipantConsent { participant_uuid: Some(rows[i]), ..m[user] }) by {
                assert(i < n);
                assert(front[i] == user);
            }
            if forall|i: int|
                0 <= i < users.len() && i < rows.len() ==> #[trigger] users[i] != user {
                assert forall|i: int| 0 <= i < front.len() && i < rows.len() implies #[trigger] front[i]
                    != user by {
                    assert(users[i] != user);
                }
            }
        }
    }
}

/// No one appears for whom there was no record.
pub proof fn law_rows_enrol_nobody(
    m: Map<u64, ParticipantConsent>,
    users: Seq<u64>,
    rows: Seq<u128>,
    user: u64,
)
    requires
        !m.contains_key(user),
    ensures
        !rows_assigned(m, users, rows).contains_key(user),
    decreases users.len(),
{
    if users.len() > 0 {
        law_rows_enrol_nobody(m, users.drop_last(), rows, user);
    }
}

/// Who had answered keeps their answer and its time; who had not counts as having
/// declined. Nothing else of a carried record changes.
pub proof fn law_carried_record(p: ParticipantConsent)
    ensures
        p.scope is Some ==> promoted(p) == p,
        p.scope is None ==> promoted(p).scope == Some(ConsentScope::Decline)
            && promoted(p).state is Declined,
        promoted(p).user_id == p.user_id,
        promoted(p).display_name == p.display_name,
        promoted(p).consented_at == p.consented_at,
        promoted(p).mid_session_join == p.mid_session_join,
        promoted(p).participant_uuid == p.participant_uuid,
{
}

/// The word for a choice, and the state that it leads to.
pub proof fn law_choices(scope: ConsentScope)
    ensures
        scope.word() == (match scope {
            ConsentScope::Full => "full"@,
            ConsentScope::Decline => "decline"@,
        }),
        scope.state() is Accepted <==> scope is Full,
        scope.state() is Declined <==> scope is Decline,
{
}

/// A choice changes records, whose audio is expected and the timer; nothing else.
pub proof fn law_choice_changes_no_more(
    a: Actor,
    then: Actor,
    user: u64,
    scope: ConsentScope,
    now: Timestamp,
    answer: Result<ConsentOutcome, SessionError>,
    effects: Seq<Effect>,
)
    requires
        a.consent_applied(then, user, scope, now, answer, effects),
    ensures
        then.session.id == a.session.id,
        then.session.guild_id == a.session.guild_id,
        then.session.phase == a.session.phase,
        then.session.channel_id == a.session.channel_id,
        then.session.text_channel_id == a.session.text_channel_id,
        then.session.initiator_id == a.session.initiator_id,
        then.session.min_participants == a.session.min_participants,
        then.session.require_all == a.session.require_all,
        then.session.started_at == a.session.started_at,
        then.session.ended_at == a.session.ended_at,
        then.session.consent_message == a.session.consent_message,
        then.tasks@ == a.tasks@,
        then.session_uuid == a.session_uuid,
        then.mixing == a.mixing,
        then.license_flags@ == a.license_flags@,
        then.humans_in_channel@ == a.humans_in_channel@,
{
}

/// A move changes who is in the channel and the timer; nothing else.
pub proof fn law_move_changes_no_more(
    a: Actor,
    then: Actor,
    new_channel: Option<u64>,
    user: u64,
    is_bot: bool,
    effects: Seq<Effect>,
)
    requires
        a.voice_applied(then, new_channel, user, is_bot, effects),
    ensures
        then.session == a.session,
        then.tasks@ == a.tasks@,
        then.session_uuid == a.session_uuid,
        then.mixing == a.mixing,
        then.license_flags@ == a.license_flags@,
        then.expected_user_ids@ == a.expected_user_ids@,
{
}

/// An enrolment changes records, tasks, whose audio is expected and the timer;
/// nothing else, and of the tasks and the expected users only the user's.
pub proof fn law_enrolment_changes_no_more(
    a: Actor,
    then: Actor,
    user: u64,
    name: Seq<char>,
    step: EnrolStep,
    other: u64,
)
    requires
        a.enrol_applied(then, user, name, step),
        other != user,
    ensures
        then.session.id == a.session.id,
        then.session.guild_id == a.session.guild_id,
        then.session.phase == a.session.phase,
        then.session.channel_id == a.session.channel_id,
        then.session.text_channel_id == a.session.text_channel_id,
        then.session.initiator_id == a.session.initiator_id,
        then.session.min_participants == a.session.min_participants,
        then.session.require_all == a.session.require_all,
        then.session.started_at == a.session.started_at,
        then.session.ended_at == a.session.ended_at,
        then.session.consent_message == a.session.consent_message,
        then.session_uuid == a.session_uuid,
        then.mixing == a.mixing,
        then.license_flags@ == a.license_flags@,
        then.humans_in_channel@ == a.humans_in_channel@,
        then.tasks@.contains(other) <==> a.tasks@.contains(other),
        then.expected_user_ids@.contains(other) <==> a.expected_user_ids@.contains(other),
{
}

/// A session knows who accepted, who declined and whose row it has noted.
pub proof fn law_session_knows(s: Session, user: u64)
    ensures
        s.accepters().contains(user) <==> s.participants@.contains_key(user)
            && s.participants@[user].scope == Some(ConsentScope::Full),
        s.decliners().contains(user) <==> s.participants@.contains_key(user)
            && s.participants@[user].scope == Some(ConsentScope::Decline),
        s.row_of(user) == (if s.participants@.contains_key(user) {
            s.participants@[user].participant_uuid
        } else {
            None
        }),
        !s.everyone_answered() <==> exists|k: u64| #[trigger]
            s.participants@.contains_key(k) && s.participants@[k].scope is None,
{
    if s.participants@.contains_key(user) {
        law_stored_choice(s.participants@[user]);
    }
    assert forall|k: u64| #[trigger] s.participants@.contains_key(k) implies (
    s.participants@[k].choice() is None <==> s.participants@[k].scope is None) by {
        law_stored_choice(s.participants@[k]);
    }
}

/// A session records exactly while it records, and can be stopped while it waits or
/// records; it tells how long it has done either.
pub proof fn law_phase_spans(phase: Phase, now: Timestamp)
    ensures
        phase.recording() <==> phase is Recording,
        phase.stoppable() <==> phase is AwaitingStabilization || phase is Recording,
        phase.span_until(now) == (match phase {
            Phase::AwaitingStabilization { entered_at } => nanos(now) - nanos(entered_at),
            Phase::Recording { gate_opened_at } => nanos(now) - nanos(gate_opened_at),
            _ => 0,
        }),
{
}

/// A phase is entered with nothing else changed.
pub proof fn law_entering_a_phase(a: Actor, then: Actor, phase: Phase)
    requires
        then.entered(a, phase),
    ensures
        then.session.phase == phase,
        then.session.id == a.session.id,
        then.session.participants == a.session.participants,
        then.session.guild_id == a.session.guild_id,
        then.session.initiator_id == a.session.initiator_id,
        then.session.channel_id == a.session.channel_id,
        then.session.started_at == a.session.started_at,
        then.session.ended_at == a.session.ended_at,
        then.session.consent_message == a.session.consent_message,
        then.tasks == a.tasks,
        then.expected_user_ids == a.expected_user_ids,
        then.session_uuid == a.session_uuid,
        then.mixing == a.mixing,
        then.license_flags == a.license_flags,
        then.humans_in_channel == a.humans_in_channel,
        then.cancelled == a.cancelled,
{
}

/// The blocklist and the rows change participants and capture tasks; nothing else.
pub proof fn law_people_change_no_more(a: Actor, then: Actor)
    requires
        then.same_but_people(a),
    ensures
        then.session.id == a.session.id,
        then.session.phase == a.session.phase,
        then.session.guild_id == a.session.guild_id,
        then.session.channel_id == a.session.channel_id,
        then.session.text_channel_id == a.session.text_channel_id,
        then.session.initiator_id == a.session.initiator_id,
        then.session.min_participants == a.session.min_participants,
        then.session.require_all == a.session.require_all,
        then.session.started_at == a.session.started_at,
        then.session.ended_at == a.session.ended_at,
        then.session.consent_message == a.session.consent_message,
        then.expected_user_ids == a.expected_user_ids,
        then.session_uuid == a.session_uuid,
        then.mixing == a.mixing,
        then.humans_in_channel == a.humans_in_channel,
        then.timer_running == a.timer_running,
        then.license_flags == a.license_flags,
        then.cancelled == a.cancelled,
{
}

/// What errors say.
pub proof fn law_error_texts(e: SessionError)
    ensures
        e.text() == (match e {
            SessionError::NotParticipant => "user is not a participant in this session"@,
            SessionError::AlreadyResponded => "user has already responded"@,
            SessionError::NotInitiator => "only the initiator can stop the session"@,
            SessionError::NotStoppable => "session is not in a stoppable state"@,
            SessionError::ActorGone => "session actor is gone"@,
        }),
{
}

/// An actor begins with its session alone: no capture task, no row, no mix, no timer
/// and no license flags; audio is expected of everyone who has not declined, and
/// everyone is taken to be in the channel.
pub proof fn law_fresh_actor(a: Actor, s: Session, user: u64)
    requires
        a.started_from(s),
    ensures
        a.session == s,
        !a.tasks@.contains(user),
        !a.license_flags@.contains_key(user),
        a.session_uuid is None && !a.mixing && !a.timer_running && !a.cancelled,
        a.humans_in_channel@.contains(user) <==> s.participants@.contains_key(user),
        a.expected_user_ids@.contains(user) <==> s.participants@.contains_key(user)
            && s.participants@[user].state !is Declined,
{
}

/// A button reads what it reads.
pub proof fn law_buttons(b: Button, custom_id: Seq<char>, label: Seq<char>, look: ButtonLook)
    requires
        b.reads(custom_id, label, look),
    ensures
        b.custom_id@ == custom_id,
        b.label@ == label,
        b.look == look,
{
}

/// Only a choice that completes the roll without enough acceptances ends a session,
/// and a command that changes nothing but that leaves all else as it is.
pub proof fn law_ending(
    answer: Result<ConsentOutcome, SessionError>,
    a: Actor,
    then: Actor,
    effects: Seq<Effect>,
)
    ensures
        quorum_failed(answer) <==> answer is Ok && answer->Ok_0 is QuorumFailed,
        then.unchanged_but_cancelled(a) ==> then.session == a.session && then.tasks == a.tasks
            && then.expected_user_ids == a.expected_user_ids && then.session_uuid == a.session_uuid
            && then.mixing == a.mixing && then.humans_in_channel == a.humans_in_channel
            && then.timer_running == a.timer_running && then.license_flags == a.license_flags,
        with_cancel(effects, true) == effects.push(Effect::Cancel),
        with_cancel(effects, false) == effects,
{
}

} // verus!
