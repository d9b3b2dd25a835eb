//! What the opening of the stabilization gate does for each participant, and what
//! each event of a session's life leads to.

use crate::collect::enumerates;
use crate::session::actor::Effect;
use crate::session::capture::ParticipantCmd;
use crate::session::drive::{
    catastrophic, may_follow, signed32, sound_of, succeeds, wait_result, ClosingEdit, GateResult,
    RecordEvent, WaitEvent,
};
use crate::session::gate::{
    cache_of_each, declined, enrolled_users, enrols, kept_out, law_let_in, let_in, signed64, storage_prefix, switch_over,
    BlocklistReply, Enrolment, FlushTarget, GateFailure,
};
use crate::session::heal::{
    failures_after, failures_in_a_row, law_budget_counts_failures_in_a_row, Rejoin,
    HEAL_FAIL_BUDGET,
};
use crate::session::restart::{
    after_requests, granted, in_time_order, law_one_restart_per_hour, request_granted,
    same_records,
};
use crate::session::stabilization::{GateVerdict, StreakStatus};
use crate::session::{ParticipantConsent, Phase, Session};
use crate::storage::bundle::pseudonym;
use crate::text::dec_text;
use crate::voice::buffer::BufferRoot;
use vstd::prelude::*;
use vstd::string::*;

verus! {

/// A user is let in exactly if a look at the blocklist found nothing against them
/// or the data API did not answer it.
pub proof fn law_who_is_let_in(replies: Seq<(u64, BlocklistReply)>, user: u64)
    ensures
        let_in(replies).contains(user) <==> exists|i: int|
            0 <= i < replies.len() && (#[trigger] replies[i]).0 == user && (replies[i].1 is Clear
                || replies[i].1 is Unanswered),
{
    law_let_in(replies, user);
    if let_in(replies).contains(user) {
        let i = choose|i: int|
            0 <= i < replies.len() && (#[trigger] replies[i]).0 == user
                && crate::session::gate::lets_in(replies[i].1);
        assert(replies[i].0 == user);
    }
}

/// When the stabilization gate opens, every capture task is told, once, whether its
/// speaker has accepted: those who have upload and feed the mix, the others keep
/// caching.
pub proof fn law_switch_over(
    order: Seq<u64>,
    tasks: Set<u64>,
    m: Map<u64, ParticipantConsent>,
    session: u128,
)
    requires
        enumerates(order, tasks),
    ensures
        switch_over(order, m, session).len() == tasks.len(),
        forall|u: u64| #[trigger]
            tasks.contains(u) ==> exists|i: int|
                0 <= i < order.len() && #[trigger] switch_over(order, m, session)[i] == (
                Effect::Tell {
                    user: u,
                    cmd: ParticipantCmd::GateOpened {
                        accepted: m.contains_key(u) && m[u].state is Accepted,
                        session_uuid: session,
                        mix: m.contains_key(u) && m[u].state is Accepted,
                    },
                }),
        forall|i: int|
            0 <= i < order.len() ==> {
                let e = #[trigger] switch_over(order, m, session)[i];
                e is Tell && tasks.contains(e->Tell_user)
            },
{
    order.unique_seq_to_set();
    let told = switch_over(order, m, session);
    assert forall|u: u64| #[trigger] tasks.contains(u) implies exists|i: int|
        0 <= i < order.len() && #[trigger] told[i] == (Effect::Tell {
            user: u,
            cmd: ParticipantCmd::GateOpened {
                accepted: m.contains_key(u) && m[u].state is Accepted,
                session_uuid: session,
                mix: m.contains_key(u) && m[u].state is Accepted,
            },
        }) by {
        assert(order.to_set().contains(u));
        let i = choose|i: int| 0 <= i < order.len() && order[i] == u;
        assert(told[i] == (Effect::Tell {
            user: u,
            cmd: ParticipantCmd::GateOpened {
                accepted: m.contains_key(u) && m[u].state is Accepted,
                session_uuid: session,
                mix: m.contains_key(u) && m[u].state is Accepted,
            },
        }));
    }
    assert forall|i: int| 0 <= i < order.len() implies {
        let e = #[trigger] told[i];
        e is Tell && tasks.contains(e->Tell_user)
    } by {
        assert(order.to_set().contains(order[i]));
    }
}

/// A participant is added under their user id and name, and as having joined late
/// exactly if they have.
pub proof fn law_enrolments(e: Enrolment, p: ParticipantConsent)
    requires
        enrols(e, p),
    ensures
        e.user_id == p.user_id,
        e.mid_session_join == p.mid_session_join,
        e.display_name@ == p.display_name@,
{
}

/// The cache of every user is flushed, under their pseudonym, from their own
/// directory of the session.
pub proof fn law_caches_of_users(
    targets: Seq<FlushTarget>,
    root: BufferRoot,
    session_id: Seq<char>,
    order: Seq<u64>,
    i: int,
)
    requires
        cache_of_each(targets, root, session_id, order),
        0 <= i < order.len(),
    ensures
        targets.len() == order.len(),
        targets[i].pseudo_id@ == pseudonym(order[i]),
        targets[i].dir@ == root.participant_path(session_id, pseudonym(order[i])),
{
}

/// A guild id keeps its 64 bits when it is stored with a sign.
pub proof fn law_signed64(n: u64)
    ensures
        -0x8000_0000_0000_0000 <= signed64(n) < 0x8000_0000_0000_0000,
        n < 0x8000_0000_0000_0000 ==> signed64(n) == n,
        n >= 0x8000_0000_0000_0000 ==> signed64(n) + 0x1_0000_0000_0000_0000 == n,
{
}

/// A count keeps its lowest 32 bits when it is stored with a sign.
pub proof fn law_signed32(n: nat)
    ensures
        -0x8000_0000 <= signed32(n) < 0x8000_0000,
        n < 0x8000_0000 ==> signed32(n) == n,
        (n - signed32(n)) % 0x1_0000_0000 == 0,
{
}

/// Where a session's audio is stored: under its guild, in a directory of its own.
pub proof fn law_storage_prefix(guild: u64, session_id: Seq<char>)
    ensures
        storage_prefix(guild, session_id) == "sessions/"@ + (dec_text(guild as nat).push('/')
            + session_id),
{
    reveal_strlit("/");
    assert("/"@ =~= seq!['/']);
    assert(storage_prefix(guild, session_id) =~= "sessions/"@ + (dec_text(guild as nat).push('/')
        + session_id));
}

/// What a failed gate says ends with what went wrong.
pub proof fn law_failure_texts(f: GateFailure)
    ensures
        match f {
            GateFailure::BadSessionId { message } => f.text() == message@,
            GateFailure::CreateSession { message } => f.text() == "create_session: "@ + message@,
            GateFailure::AddParticipants { message } => f.text() == "add_participants_batch: "@
                + message@,
            GateFailure::CollectMix { message } => f.text() == "mix_sources_join: "@ + message@,
            GateFailure::JoinMix { message } => f.text() == "mix_write_join: "@ + message@,
            GateFailure::WriteMix { message } => f.text() == "mix_write: "@ + message@,
        },
{
}

/// The wait for the stabilization gate ends with its opening, with its timeout, or
/// with a stop; nothing else ends it.
pub proof fn law_wait_ends(event: WaitEvent)
    ensures
        wait_result(event) == Some(GateResult::Opened) <==> event matches WaitEvent::Observed {
            status: StreakStatus::GateOpens { .. },
        },
        wait_result(event) == Some(GateResult::TimedOut) <==> event == (WaitEvent::Observed {
            status: StreakStatus::TimedOut,
        }),
        wait_result(event) == Some(GateResult::Stopped) <==> event is Cancelled || event is Closed
            || event == (WaitEvent::Handled { stop: true }),
{
}

/// A recording session fails for three reasons only: the connection is beyond
/// healing, a task panicked, or the data API failed past all retries.
pub proof fn law_catastrophes(event: RecordEvent)
    ensures
        catastrophic(event) <==> match event {
            RecordEvent::Panicked => true,
            RecordEvent::UploadGivenUp => true,
            RecordEvent::Checked { verdict } => verdict is BudgetExhausted,
            _ => false,
        },
{
}

/// Which phase comes after which: the wait leads to the recording or to a
/// cancellation, the recording to a restart, and all but a restart to the end.
pub proof fn law_phases(a: Phase, b: Phase)
    ensures
        may_follow(a, b) <==> {
            ||| a is AwaitingStabilization && (b is Recording || b is Cancelled || b is Finalizing)
            ||| a is Recording && (b is Restarting || b is Finalizing)
            ||| a is Cancelled && b is Finalizing
            ||| a is Finalizing && b is Finalizing
        },
{
}

/// There are two announcements, each with a sound of its own.
pub proof fn law_sounds(label: Seq<char>)
    ensures
        label == "recording_started"@ ==> sound_of(label) == Some("/assets/recording_started.wav"@),
        label == "recording_stopped"@ && label != "recording_started"@ ==> sound_of(label) == Some(
            "/assets/recording_stopped.wav"@,
        ),
        label != "recording_started"@ && label != "recording_stopped"@ ==> sound_of(label) is None,
{
}

/// The thanks stand in place of the prompt, on the same message.
pub proof fn law_thanks(e: ClosingEdit, place: (u64, u64))
    requires
        e.thanks(place),
    ensures
        e.channel_id == place.0 && e.message_id == place.1,
        e.embed.title@ == "Session complete"@,
        e.embed.description@ == "Recording has ended. Thank you for contributing!"@,
        e.embed.fields@.len() == 0,
{
}

/// A successor serves the same guild, channels and initiator, has the same
/// participants, and begins with the wait for the stabilization gate and a prompt of
/// its own. Whoever had answered keeps that record.
pub proof fn law_successor(
    next: Session,
    failed: Session,
    min_participants: usize,
    require_all: bool,
    user: u64,
)
    requires
        succeeds(next, failed, min_participants, require_all),
    ensures
        next.guild_id == failed.guild_id,
        next.channel_id == failed.channel_id,
        next.text_channel_id == failed.text_channel_id,
        next.initiator_id == failed.initiator_id,
        next.min_participants == min_participants && next.require_all == require_all,
        next.phase is AwaitingStabilization,
        next.consent_message is None && next.ended_at is None,
        next.participants@.contains_key(user) <==> failed.participants@.contains_key(user),
        failed.participants@.contains_key(user) ==> {
            let was = failed.participants@[user];
            let is = next.participants@[user];
            &&& is.user_id == was.user_id
            &&& is.display_name@ == was.display_name@
            &&& is.mid_session_join == was.mid_session_join
            &&& was.scope is Some ==> is.scope == was.scope && is.state == was.state
                && is.consented_at == was.consented_at
            &&& was.scope is None ==> is.state is Declined
        },
{
    assert(next.participants@.dom().contains(user) <==> failed.participants@.dom().contains(user));
}

/// What is carried over to a successor is every record, unchanged.
pub proof fn law_carried_records(
    a: Map<u64, ParticipantConsent>,
    b: Map<u64, ParticipantConsent>,
    user: u64,
)
    requires
        same_records(a, b),
    ensures
        b.contains_key(user) <==> a.contains_key(user),
        a.contains_key(user) ==> {
            &&& b[user].user_id == a[user].user_id
            &&& b[user].display_name@ == a[user].display_name@
            &&& b[user].scope == a[user].scope
            &&& b[user].consented_at == a[user].consented_at
            &&& b[user].mid_session_join == a[user].mid_session_join
            &&& b[user].participant_uuid == a[user].participant_uuid
            &&& b[user].state == a[user].state
        },
{
    assert(b.dom().contains(user) <==> a.dom().contains(user));
}

/// A window there is was begun by a granted request at its start.
proof fn lemma_windows_are_granted(requests: Seq<(u64, u128)>, guild: u64)
    requires
        after_requests(requests).contains_key(guild),
    ensures
        after_requests(requests)[guild].used == 1,
        exists|i: int|
            0 <= i < requests.len() && (#[trigger] requests[i]).0 == guild && requests[i].1
                == after_requests(requests)[guild].start && request_granted(requests, i),
    decreases requests.len(),
{
    let front = requests.drop_last();
    let n = requests.len() - 1;
    assert(requests.last() == requests[n]);
    assert(requests.take(n) =~= front);
    let before = after_requests(front);
    if before.contains_key(guild) {
        lemma_windows_are_granted(front, guild);
        let i = choose|i: int|
            0 <= i < front.len() && (#[trigger] front[i]).0 == guild && front[i].1
                == before[guild].start && request_granted(front, i);
        assert(requests[i] == front[i]);
        assert(front.take(i) =~= requests.take(i));
        assert(request_granted(requests, i));
    }
    if requests[n].0 == guild && granted(before, guild, requests[n].1) {
        assert(request_granted(requests, n));
        assert(requests[n].1 == after_requests(requests)[guild].start);
    }
}

/// A restart is granted exactly if the guild was granted none in the hour before,
/// whatever else was asked for.
pub proof fn law_hourly_restarts(requests: Seq<(u64, u128)>, j: int)
    requires
        0 <= j < requests.len(),
        in_time_order(requests),
    ensures
        request_granted(requests, j) <==> forall|i: int|
            0 <= i < j && (#[trigger] requests[i]).0 == requests[j].0 && request_granted(requests, i)
                ==> requests[j].1 - requests[i].1 >= 3_600_000_000_000,
{
    if request_granted(requests, j) {
        assert forall|i: int|
            0 <= i < j && (#[trigger] requests[i]).0 == requests[j].0 && request_granted(requests, i) implies requests[j].1
            - requests[i].1 >= 3_600_000_000_000 by {
            if requests[j].1 - requests[i].1 < 3_600_000_000_000 {
                law_one_restart_per_hour(requests, i, j);
            }
        }
    } else {
        let past = requests.take(j);
        let guild = requests[j].0;
        assert(after_requests(past).contains_key(guild));
        lemma_windows_are_granted(past, guild);
        let i = choose|i: int|
            0 <= i < past.len() && (#[trigger] past[i]).0 == guild && past[i].1
                == after_requests(past)[guild].start && request_granted(past, i);
        assert(requests[i] == past[i]);
        assert(past.take(i) =~= requests.take(i));
        assert(request_granted(requests, i));
    }
}

/// The failures that are counted after a row of rejoins.
pub open spec fn counted(rejoins: Seq<Rejoin>) -> int
    decreases rejoins.len(),
{
    if rejoins.len() == 0 {
        0
    } else {
        failures_after(rejoins.last(), counted(rejoins.drop_last()) as u32)
    }
}

/// The budget is used up exactly when the last three rejoins did not restore
/// health.
pub proof fn law_third_failure(rejoins: Seq<Rejoin>)
    requires
        rejoins.len() <= u32::MAX,
    ensures
        counted(rejoins) >= HEAL_FAIL_BUDGET <==> rejoins.len() >= 3 && forall|i: int|
            rejoins.len() - 3 <= i < rejoins.len() ==> {
                let r = #[trigger] rejoins[i];
                r is Failed || r == (Rejoin::Joined { after: GateVerdict::Unhealthy })
            },
{
    lemma_counted(rejoins);
    law_budget_counts_failures_in_a_row(rejoins, 3);
}

proof fn lemma_counted(rejoins: Seq<Rejoin>)
    requires
        rejoins.len() <= u32::MAX,
    ensures
        counted(rejoins) == failures_in_a_row(rejoins),
        0 <= counted(rejoins) <= rejoins.len(),
    decreases rejoins.len(),
{
    if rejoins.len() > 0 {
        lemma_counted(rejoins.drop_last());
    }
}

/// The users of a list of enrolments are those who are enrolled, in order.
pub proof fn law_enrolled_users(list: Seq<Enrolment>, i: int)
    requires
        0 <= i < list.len(),
    ensures
        enrolled_users(list).len() == list.len(),
        enrolled_users(list)[i] == list[i].user_id,
{
}

/// Who leaves before the stabilization gate opens: participants for whom no look at
/// the blocklist came back clear or unanswered, and participants who declined. Those
/// who have not answered stay.
pub proof fn law_who_leaves(
    m: Map<u64, ParticipantConsent>,
    replies: Seq<(u64, BlocklistReply)>,
    user: u64,
)
    ensures
        kept_out(m, replies).contains(user) <==> m.contains_key(user) && forall|i: int|
            0 <= i < replies.len() && (#[trigger] replies[i]).0 == user ==> replies[i].1 is Blocked
                || replies[i].1 is Lost,
        declined(m).contains(user) <==> m.contains_key(user) && m[user].state is Declined,
{
    law_who_is_let_in(replies, user);
}

} // verus!
