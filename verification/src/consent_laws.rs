//! What choices, clicks and commands lead to where consent comes first.

use crate::commands::consent::{click_of, refusal, Click};
use crate::commands::license::{field_of, field_text, flags_before};
use crate::commands::record::{
    attending, channel_of, enrols_all, listed, mention_texts, record_refusal, Attendee,
    RecordRequest, VoiceMember,
};
use crate::commands::respond::{dispatched, Dispatch, InteractionKind, InteractionReply};
use crate::commands::stop::stop_text;
use crate::consent::manager;
use crate::consent_first;
use crate::roll::Record;
use crate::roll_laws::{alone, law_release_is_full_consent};
use crate::session::actor::{LicenseField, SessionError};
use crate::session::{ConsentScope, ParticipantConsent};
use crate::storage::bundle;
use crate::storage::bundle::{pseudonym, ConsentRecord};
use crate::text::dec_text;
use crate::time::Timestamp;
use vstd::prelude::*;
use vstd::string::*;

verus! {

/// What is stored of a choice is that choice.
pub proof fn law_stored_choice(p: consent_first::ParticipantConsent)
    ensures
        p.choice() == Some(bundle::ConsentScope::Full) <==> p.scope == Some(
            consent_first::ConsentScope::Full,
        ),
        p.choice() == Some(bundle::ConsentScope::Decline) <==> p.scope == Some(
            consent_first::ConsentScope::Decline,
        ),
        p.choice() is None <==> p.scope is None,
        p.user() == p.user_id,
        p.name() == p.display_name@,
        p.chosen_at() == p.consented_at,
        p.joined_late() == p.mid_session_join,
{
}

/// An answer is kept as it was given.
pub proof fn law_kept_answer(p: manager::ParticipantConsent)
    ensures
        p.choice() == p.scope,
        p.user() == p.user_id,
        p.name() == p.display_name@,
        p.chosen_at() == p.consented_at,
        p.joined_late() == p.mid_session_join,
{
}

/// The consent record of a session releases a participant's audio exactly if they
/// accepted.
pub proof fn law_accepted_audio_is_released(
    s: consent_first::Session,
    r: ConsentRecord,
    user: u64,
    i: int,
)
    requires
        crate::roll::holds_choices(r, s.id@, s.participants@),
        s.participants@.contains_key(user),
        alone(s.participants@, user),
        0 <= i < r.participants@.len(),
        r.participants@[i].0@ == pseudonym(s.participants@[user].user_id),
    ensures
        r.participants@[i].1.audio_release <==> s.participants@[user].scope == Some(
            consent_first::ConsentScope::Full,
        ),
{
    law_release_is_full_consent(r, s.id@, s.participants@, user);
    law_stored_choice(s.participants@[user]);
}

/// A choice is noted with its time, in the record of who made it, and nothing else
/// changes. Nobody is enrolled by choosing.
pub proof fn law_choice_is_noted(
    s: consent_first::Session,
    user: u64,
    scope: consent_first::ConsentScope,
    now: Timestamp,
    other: u64,
)
    ensures
        ({
            let before = s.participants@;
            let after = s.records_after_choice(user, scope, now);
            &&& after.contains_key(other) <==> before.contains_key(other)
            &&& other != user && before.contains_key(other) ==> after[other] == before[other]
            &&& before.contains_key(user) ==> {
                &&& after[user].scope == Some(scope)
                &&& after[user].consented_at == Some(now)
                &&& after[user].user_id == before[user].user_id
                &&& after[user].display_name == before[user].display_name
                &&& after[user].mid_session_join == before[user].mid_session_join
                &&& after[user].participant_uuid == before[user].participant_uuid
                &&& after[user].no_llm_training == before[user].no_llm_training
                &&& after[user].no_public_release == before[user].no_public_release
            }
        }),
{
}

/// An answer is noted with its time, in the record of who gave it, and nothing else
/// changes. Nobody is enrolled by answering.
pub proof fn law_answer_is_noted(
    s: manager::ConsentSession,
    user: u64,
    scope: bundle::ConsentScope,
    now: Timestamp,
    other: u64,
)
    ensures
        ({
            let before = s.participants@;
            let after = s.records_after_choice(user, scope, now);
            &&& after.contains_key(other) <==> before.contains_key(other)
            &&& other != user && before.contains_key(other) ==> after[other] == before[other]
            &&& before.contains_key(user) ==> {
                &&& after[user].scope == Some(scope)
                &&& after[user].consented_at == Some(now)
                &&& after[user].user_id == before[user].user_id
                &&& after[user].display_name == before[user].display_name
                &&& after[user].mid_session_join == before[user].mid_session_join
            }
        }),
{
}

/// A session can be stopped until it is wound up, and has a pipeline while it
/// starts or records. A consent session is active until it is over or called off.
pub proof fn law_phases(phase: consent_first::Phase, state: manager::SessionState)
    ensures
        phase.stoppable() <==> !(phase is Finalizing || phase is Cancelled || phase is Complete),
        phase.pipeline() is Some <==> phase is StartingRecording || phase is Recording,
        match phase {
            consent_first::Phase::StartingRecording(p) => phase.pipeline() == Some(p),
            consent_first::Phase::Recording(p) => phase.pipeline() == Some(p),
            _ => true,
        },
        state.active() <==> !(state is Complete || state is Cancelled),
{
}

/// The buttons of the consent prompt stand for the two choices, those of the
/// license row for the two restrictions, and no other button stands for anything.
pub proof fn law_clicks(custom_id: Seq<char>)
    ensures
        click_of("consent_accept"@) == (Click::Choice { scope: ConsentScope::Full }),
        click_of("consent_decline"@) == (Click::Choice { scope: ConsentScope::Decline }),
        click_of(custom_id) is License <==> field_of(custom_id) is Some,
        click_of(custom_id) is Choice <==> custom_id == "consent_accept"@ || custom_id
            == "consent_decline"@,
        field_of("license_no_llm"@) == Some(LicenseField::NoLlmTraining),
        field_of("license_no_public"@) == Some(LicenseField::NoPublicRelease),
        field_of(custom_id) is Some <==> custom_id == "license_no_llm"@ || custom_id
            == "license_no_public"@,
{
    reveal_strlit("consent_accept");
    reveal_strlit("consent_decline");
    reveal_strlit("license_no_llm");
    reveal_strlit("license_no_public");
    assert("consent_accept"@.len() == 14);
    assert("consent_decline"@.len() == 15);
    assert("license_no_llm"@.len() == 14);
    assert("license_no_public"@.len() == 17);
    assert("consent_accept"@[0] == 'c');
    assert("license_no_llm"@[0] == 'l');
}

/// Before a flip the flag was the other way, and the other flag as it is.
pub proof fn law_flags_before(field: LicenseField, now: (bool, bool))
    ensures
        field is NoLlmTraining ==> flags_before(field, now.0, now.1) == (!now.0, now.1),
        field is NoPublicRelease ==> flags_before(field, now.0, now.1) == (now.0, !now.1),
        field is NoLlmTraining ==> field_text(field) == "no_llm_training"@,
        field is NoPublicRelease ==> field_text(field) == "no_public_release"@,
{
}

/// What is said to who cannot choose.
pub proof fn law_refusals(e: SessionError)
    ensures
        e is NotParticipant ==> refusal(e) == "You're not in the voice channel for this session."@,
        e is AlreadyResponded ==> refusal(e) == "You've already responded."@,
        !(e is NotParticipant || e is AlreadyResponded) ==> refusal(e)
            == "Can't record that click right now."@,
{
}

/// A user is in the channel of their first voice state.
pub proof fn law_channel_of(states: Seq<VoiceMember>, user: u64)
    ensures
        channel_of(states, user) is Some ==> exists|i: int|
            0 <= i < states.len() && (#[trigger] states[i]).user_id == user && states[i].channel_id
                == channel_of(states, user) && forall|j: int|
                0 <= j < i ==> (#[trigger] states[j]).user_id != user,
        forall|i: int|
            0 <= i < states.len() && (#[trigger] states[i]).user_id == user && (forall|j: int|
                0 <= j < i ==> (#[trigger] states[j]).user_id != user) ==> channel_of(states, user)
                == states[i].channel_id,
    decreases states.len(),
{
    if states.len() > 0 {
        let rest = states.skip(1);
        law_channel_of(rest, user);
        if states[0].user_id != user {
            if channel_of(states, user) is Some {
                let i = choose|i: int|
                    0 <= i < rest.len() && (#[trigger] rest[i]).user_id == user
                        && rest[i].channel_id == channel_of(rest, user) && forall|j: int|
                        0 <= j < i ==> (#[trigger] rest[j]).user_id != user;
                assert(states[i + 1] == rest[i]);
                assert forall|j: int| 0 <= j < i + 1 implies (#[trigger] states[j]).user_id != user by {
                    if j > 0 {
                        assert(states[j] == rest[j - 1]);
                    }
                }
            }
            assert forall|i: int|
                0 <= i < states.len() && (#[trigger] states[i]).user_id == user && (forall|j: int|
                    0 <= j < i ==> (#[trigger] states[j]).user_id != user) implies channel_of(
                states,
                user,
            ) == states[i].channel_id by {
                assert(rest[i - 1] == states[i]);
                assert forall|j: int| 0 <= j < i - 1 implies (#[trigger] rest[j]).user_id != user by {
                    assert(states[j + 1] == rest[j]);
                }
            }
        }
    }
}

/// Voice state `i` is that of a person in the channel.
pub open spec fn is_there(states: Seq<VoiceMember>, channel: u64, i: int) -> bool {
    &&& 0 <= i < states.len()
    &&& states[i].channel_id == Some(channel)
    &&& states[i].member is Some
    &&& !states[i].member->0.bot
}

/// Everyone who is in the channel and is not a bot is asked, in the order of the
/// voice states, under the name that they have there; nobody else is.
pub proof fn law_attending(states: Seq<VoiceMember>, channel: u64) -> (from: Seq<int>)
    ensures
        attending(states, channel).len() == from.len(),
        forall|a: int, b: int| 0 <= a < b < from.len() ==> from[a] < from[b],
        forall|i: int| #[trigger] is_there(states, channel, i) <==> from.contains(i),
        forall|n: int|
            0 <= n < from.len() ==> {
                let s = states[from[n]];
                #[trigger] attending(states, channel)[n] == (s.user_id, s.member->0.display_name@)
            },
    decreases states.len(),
{
    if states.len() == 0 {
        Seq::empty()
    } else {
        let front = states.drop_last();
        let n = states.len() - 1;
        let before = law_attending(front, channel);
        assert(states.last() == states[n]);
        assert forall|a: int| 0 <= a < before.len() implies 0 <= #[trigger] before[a] < n
            && front[before[a]] == states[before[a]] by {
            assert(before.contains(before[a]));
            assert(is_there(front, channel, before[a]));
        }
        let from = if is_there(states, channel, n) {
            before.push(n)
        } else {
            before
        };
        assert forall|i: int| #[trigger] is_there(states, channel, i) <==> from.contains(i) by {
            if 0 <= i < n {
                assert(front[i] == states[i]);
                assert(is_there(front, channel, i) == is_there(states, channel, i));
                if before.contains(i) {
                    let a = choose|a: int| 0 <= a < before.len() && before[a] == i;
                    assert(from[a] == i);
                }
            }
            if i == n && is_there(states, channel, n) {
                assert(from[before.len() as int] == n);
            }
            if from.contains(i) {
                let a = choose|a: int| 0 <= a < from.len() && from[a] == i;
                if a < before.len() {
                    assert(before[a] == i);
                    assert(before.contains(i));
                    assert(is_there(front, channel, i));
                }
            }
        }
        from
    }
}

/// Everyone on the list takes part without an answer, and nobody else does.
pub proof fn law_everyone_is_enrolled(
    m: Map<u64, ParticipantConsent>,
    people: Seq<(u64, Seq<char>)>,
    user: u64,
)
    requires
        enrols_all(m, people),
    ensures
        m.contains_key(user) <==> exists|i: int|
            0 <= i < people.len() && (#[trigger] people[i]).0 == user,
        m.contains_key(user) ==> {
            &&& m[user].user_id == user
            &&& m[user].scope is None
            &&& m[user].state is Pending
            &&& m[user].consented_at is None
            &&& !m[user].mid_session_join
        },
{
    if m.contains_key(user) {
        let i = choose|i: int|
            0 <= i < people.len() && (#[trigger] people[i]).0 == user && m[user].pending(
                user,
                people[i].1,
                false,
            );
        assert(people[i].0 == user);
    }
}

/// A mention of each, by their id.
pub proof fn law_mentions(people: Seq<(u64, Seq<char>)>, i: int)
    requires
        0 <= i < people.len(),
    ensures
        mention_texts(people).len() == people.len(),
        mention_texts(people)[i] == "<@"@ + (dec_text(people[i].0 as nat).push('>')),
{
    reveal_strlit(">");
    assert(">"@ =~= seq!['>']);
    assert(mention_texts(people)[i] =~= "<@"@ + (dec_text(people[i].0 as nat).push('>')));
}

/// A session starts for who is in a voice channel of a known server, and for nobody
/// else.
pub proof fn law_record_refusal(request: RecordRequest, states: Option<Seq<VoiceMember>>)
    ensures
        record_refusal(request, states) is None <==> request.guild_id is Some && states is Some
            && channel_of(states->0, request.invoker) is Some,
        request.guild_id is None ==> record_refusal(request, states) == Some(
            "Run this in a server."@,
        ),
        request.guild_id is Some && states is None ==> record_refusal(request, states) == Some(
            "Guild cache not populated yet."@,
        ),
        request.guild_id is Some && states is Some && channel_of(states->0, request.invoker) is None
            ==> record_refusal(request, states) == Some("You need to be in a voice channel."@),
{
}

/// Whatever a handler answers reaches the user unchanged: an edit the response, an
/// update the message that was clicked on or, for a command, the response, and a
/// followup a message of its own.
pub proof fn law_answers_arrive(kind: InteractionKind, reply: InteractionReply)
    ensures
        match reply {
            InteractionReply::Edit { content, embed, components } => dispatched(kind, reply) == (
            Dispatch::EditResponse { content, embed, components }),
            InteractionReply::UpdateMessage { embed, content, components } => {
                &&& kind is Command ==> dispatched(kind, reply) == (Dispatch::EditResponse {
                    content,
                    embed,
                    components,
                })
                &&& kind is Component ==> dispatched(kind, reply) == (Dispatch::EditMessage {
                    content,
                    embed,
                    components,
                })
            },
            InteractionReply::Followup { content, ephemeral, components } => dispatched(
                kind,
                reply,
            ) == (Dispatch::CreateFollowup { content, ephemeral, components }),
            InteractionReply::Silent => dispatched(kind, reply) is Nothing,
        },
{
}

/// Those who are listed are listed by id and name.
pub proof fn law_listed(list: Seq<Attendee>, i: int)
    requires
        0 <= i < list.len(),
    ensures
        listed(list).len() == list.len(),
        listed(list)[i] == (list[i].user_id, list[i].display_name@),
{
}

/// Notes go into the record of the participant, and nowhere else.
pub proof fn law_records_with(
    s: consent_first::Session,
    user: u64,
    p: consent_first::ParticipantConsent,
    other: u64,
)
    ensures
        ({
            let after = s.records_with(user, p);
            &&& after.contains_key(other) <==> s.participants@.contains_key(other)
            &&& s.participants@.contains_key(user) ==> after[user] == p
            &&& other != user && s.participants@.contains_key(other) ==> after[other]
                == s.participants@[other]
        }),
        consent_first::flags_of(s.participants@, user) == (if s.participants@.contains_key(user) {
            (s.participants@[user].no_llm_training, s.participants@[user].no_public_release)
        } else {
            (false, false)
        }),
        consent_first::row_of(s.participants@, user) == (if s.participants@.contains_key(user) {
            s.participants@[user].participant_uuid
        } else {
            None
        }),
{
}

/// A guild has an active session exactly if it has one that is not on its way out.
pub proof fn law_active(m: consent_first::SessionManager, guild: u64)
    ensures
        m.active(guild) <==> m.sessions().contains_key(guild) && !(
        m.sessions()[guild].phase is Finalizing || m.sessions()[guild].phase is Cancelled
            || m.sessions()[guild].phase is Complete),
{
}

/// What changes participants changes nothing else of a session.
pub proof fn law_participants_change_no_more(
    s: consent_first::Session,
    was: consent_first::Session,
    c: manager::ConsentSession,
    before: manager::ConsentSession,
)
    requires
        s.differs_in_participants(was),
        c.differs_in_participants(before),
    ensures
        s.id == was.id && s.guild_id == was.guild_id && s.phase == was.phase,
        s.channel_id == was.channel_id && s.text_channel_id == was.text_channel_id,
        s.initiator_id == was.initiator_id,
        s.min_participants == was.min_participants && s.require_all == was.require_all,
        s.started_at == was.started_at && s.ended_at == was.ended_at,
        s.consent_message == was.consent_message,
        s.license_followups == was.license_followups,
        s.license_cleanup_tasks == was.license_cleanup_tasks,
        s.auto_stop_task == was.auto_stop_task,
        s.audio_received == was.audio_received && s.recording_stable == was.recording_stable,
        c.guild_id == before.guild_id && c.channel_id == before.channel_id,
        c.text_channel_id == before.text_channel_id && c.initiator_id == before.initiator_id,
        c.session_id == before.session_id && c.state == before.state,
        c.min_participants == before.min_participants && c.require_all == before.require_all,
        c.consent_message == before.consent_message,
        c.license_followups == before.license_followups,
{
}

/// What who stops a recording is told.
pub proof fn law_stop_texts(result: Result<(), SessionError>)
    ensures
        result is Ok ==> stop_text(result) == "Wrapping up..."@,
        result == Err::<(), SessionError>(SessionError::NotInitiator) ==> stop_text(result)
            == "Only the person who started the recording can stop it."@,
        result == Err::<(), SessionError>(SessionError::NotStoppable) || result == Err::<
            (),
            SessionError,
        >(SessionError::ActorGone) ==> stop_text(result) == "No active recording in this server."@,
        result is Err && (result->Err_0 is NotParticipant || result->Err_0 is AlreadyResponded)
            ==> stop_text(result) == "Couldn't stop the recording \u{2014} try again."@,
{
}

} // verus!
