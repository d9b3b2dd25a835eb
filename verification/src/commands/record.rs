//! The `/record` command.
//!
//! A session starts with the people who are in the voice channel, each of them
//! still to be asked. Nothing is said to the data API before the stabilization
//! gate opens.

use crate::ident::uuid_of_text;
use crate::roll::ConsentEmbed;
use crate::session::{ParticipantConsent, Session, CONSENT_TEXT};
use crate::text::{dec_string, dec_text, join_by, joined_by, owned, texts};
use vstd::prelude::*;
use vstd::string::*;

verus! {

broadcast use vstd::std_specs::hash::group_hash_axioms;

/// The answer outside of a server.
pub const NOT_IN_A_SERVER: &'static str = "Run this in a server.";

/// The answer while nothing is known of the server.
pub const SERVER_UNKNOWN: &'static str = "Guild cache not populated yet.";

/// The answer to someone who is not in a voice channel.
pub const NOT_IN_VOICE: &'static str = "You need to be in a voice channel.";

/// The answer where a session runs already.
pub const ALREADY_RECORDING: &'static str = "A recording session is already active in this server.";

/// Someone's voice state, and the member as far as they are known.
pub struct VoiceMember {
    pub user_id: u64,
    pub channel_id: Option<u64>,
    pub member: Option<Member>,
}

/// A member of a server.
pub struct Member {
    pub display_name: String,
    pub bot: bool,
}

/// Someone who is enrolled at the start.
pub struct Attendee {
    pub user_id: u64,
    pub display_name: String,
}

/// The channel of the first voice state of `user`.
pub open spec fn channel_of(states: Seq<VoiceMember>, user: u64) -> Option<u64>
    decreases states.len(),
{
    if states.len() == 0 {
        None
    } else if states[0].user_id == user {
        states[0].channel_id
    } else {
        channel_of(states.skip(1), user)
    }
}

fn find_channel(states: &Vec<VoiceMember>, user: u64) -> (c: Option<u64>)
    ensures
        c == channel_of(states@, user),
{
    let mut i: usize = 0;
    assert(states@.skip(0) =~= states@);
    while i < states.len()
        invariant
            0 <= i <= states@.len(),
            channel_of(states@, user) == channel_of(states@.skip(i as int), user),
        decreases states@.len() - i,
    {
        if states[i].user_id == user {
            return states[i].channel_id;
        }
        assert(states@.skip(i as int).skip(1) =~= states@.skip(i + 1));
        i = i + 1;
    }
    None
}

/// Someone to be enrolled: a known member in the channel who is not a bot.
pub open spec fn attends(s: VoiceMember, channel: u64) -> bool {
    &&& s.channel_id == Some(channel)
    &&& s.member is Some
    &&& !s.member->0.bot
}

/// The people in a channel, in the order of their voice states.
pub open spec fn attending(states: Seq<VoiceMember>, channel: u64) -> Seq<(u64, Seq<char>)>
    decreases states.len(),
{
    if states.len() == 0 {
        seq![]
    } else {
        let before = attending(states.drop_last(), channel);
        let s = states.last();
        if attends(s, channel) {
            before.push((s.user_id, s.member->0.display_name@))
        } else {
            before
        }
    }
}

/// Attendees as values.
pub open spec fn listed(list: Seq<Attendee>) -> Seq<(u64, Seq<char>)> {
    list.map_values(|a: Attendee| (a.user_id, a.display_name@))
}

/// The people in a channel, in the order of their voice states.
pub fn attendees(states: &Vec<VoiceMember>, channel: u64) -> (list: Vec<Attendee>)
    ensures
        listed(list@) == attending(states@, channel),
{
    let mut list: Vec<Attendee> = Vec::new();
    let mut i: usize = 0;
    assert(states@.take(0) =~= seq![]);
    assert(listed(list@) =~= seq![]);
    while i < states.len()
        invariant
            0 <= i <= states@.len(),
            listed(list@) == attending(states@.take(i as int), channel),
        decreases states@.len() - i,
    {
        assert(states@.take(i + 1).drop_last() =~= states@.take(i as int));
        let ghost before = listed(list@);
        let here = match states[i].channel_id {
            Some(c) => c == channel,
            None => false,
        };
        match &states[i].member {
            Some(m) => {
                if here && !m.bot {
                    list.push(
                        Attendee {
                            user_id: states[i].user_id,
                            display_name: owned(m.display_name.as_str()),
                        },
                    );
                    assert(listed(list@) =~= before.push(
                        (states@[i as int].user_id, m.display_name@),
                    ));
                }
            },
            None => {},
        }
        i = i + 1;
    }
    assert(states@.take(states@.len() as int) =~= states@);
    list
}

/// The mentions of attendees.
pub open spec fn mention_texts(people: Seq<(u64, Seq<char>)>) -> Seq<Seq<char>> {
    people.map_values(|p: (u64, Seq<char>)| "<@"@ + dec_text(p.0 as nat) + ">"@)
}

fn mentions_of(list: &Vec<Attendee>) -> (text: String)
    ensures
        text@ == joined_by(mention_texts(listed(list@)), " "@),
{
    let mut parts: Vec<String> = Vec::new();
    let mut i: usize = 0;
    assert(texts(parts@) =~= mention_texts(listed(list@)).take(0));
    while i < list.len()
        invariant
            0 <= i <= list@.len(),
            texts(parts@) == mention_texts(listed(list@)).take(i as int),
        decreases list@.len() - i,
    {
        let mut m = owned("<@");
        m.append(dec_string(list[i].user_id).as_str());
        m.append(">");
        let ghost before = texts(parts@);
        let ghost text = m@;
        parts.push(m);
        assert(texts(parts@) =~= before.push(text));
        assert(mention_texts(listed(list@)).take(i + 1) =~= mention_texts(listed(list@)).take(
            i as int,
        ).push(text));
        i = i + 1;
    }
    assert(mention_texts(listed(list@)).take(list@.len() as int) =~= mention_texts(listed(list@)));
    join_by(&parts, " ")
}

/// Everyone among `people` is enrolled in `m`, the first entry of a user
/// counting, and nobody else is.
pub open spec fn enrols_all(m: Map<u64, ParticipantConsent>, people: Seq<(u64, Seq<char>)>) -> bool {
    &&& forall|k: u64| #[trigger]
        m.contains_key(k) ==> exists|i: int|
            0 <= i < people.len() && (#[trigger] people[i]).0 == k && m[k].pending(
                k,
                people[i].1,
                false,
            )
    &&& forall|i: int| 0 <= i < people.len() ==> m.contains_key((#[trigger] people[i]).0)
    &&& forall|i: int|
        0 <= i < people.len() && (forall|j: int| 0 <= j < i ==> (#[trigger] people[j]).0
            != people[i].0) ==> m[(#[trigger] people[i]).0].pending(
            people[i].0,
            people[i].1,
            false,
        )
}

fn enrol_all(session: &mut Session, list: &Vec<Attendee>)
    requires
        old(session).wf(),
        old(session).participants@ == Map::<u64, ParticipantConsent>::empty(),
    ensures
        final(session).wf(),
        final(session).differs_in_participants(*old(session)),
        enrols_all(final(session).participants@, listed(list@)),
{
    let ghost people = listed(list@);
    let mut i: usize = 0;
    while i < list.len()
        invariant
            0 <= i <= list@.len(),
            people == listed(list@),
            session.wf(),
            session.differs_in_participants(*old(session)),
            enrols_all(session.participants@, people.take(i as int)),
        decreases list@.len() - i,
    {
        let ghost m = session.participants@;
        let u: u64 = list[i].user_id;
        session.add_participant(u, owned(list[i].display_name.as_str()), false);
        proof {
            let now = session.participants@;
            let a = people.take(i as int);
            let b = people.take(i + 1);
            assert(b =~= a.push(people[i as int]));
            assert(people[i as int] == (u, list@[i as int].display_name@));
            assert forall|k: u64| #[trigger] now.contains_key(k) implies exists|j: int|
                0 <= j < b.len() && (#[trigger] b[j]).0 == k && now[k].pending(k, b[j].1, false) by {
                if m.contains_key(k) {
                    let j = choose|j: int|
                        0 <= j < a.len() && (#[trigger] a[j]).0 == k && m[k].pending(
                            k,
                            a[j].1,
                            false,
                        );
                    assert(b[j] == a[j]);
                    assert(now[k] == m[k]);
                } else {
                    assert(k == u);
                    assert(b[i as int].0 == k);
                }
            }
            assert forall|j: int| 0 <= j < b.len() implies now.contains_key((#[trigger] b[j]).0) by {
                if j < i {
                    assert(b[j] == a[j]);
                    assert(m.contains_key(a[j].0));
                }
            }
            assert forall|j: int|
                0 <= j < b.len() && (forall|n: int| 0 <= n < j ==> (#[trigger] b[n]).0
                    != b[j].0) implies now[(#[trigger] b[j]).0].pending(b[j].0, b[j].1, false) by {
                if j < i {
                    assert(b[j] == a[j]);
                    assert forall|n: int| 0 <= n < j implies (#[trigger] a[n]).0 != a[j].0 by {
                        assert(b[n] == a[n]);
                    }
                    assert(m.contains_key(a[j].0));
                    assert(now[a[j].0] == m[a[j].0]);
                } else {
                    assert(!m.contains_key(u)) by {
                        if m.contains_key(u) {
                            let n = choose|n: int|
                                0 <= n < a.len() && (#[trigger] a[n]).0 == u && m[u].pending(
                                    u,
                                    a[n].1,
                                    false,
                                );
                            assert(b[n] == a[n]);
                        }
                    }
                }
            }
        }
        i = i + 1;
    }
    assert(people.take(people.len() as int) =~= people);
}

/// A session that is ready to start, and the prompt that goes with it.
pub struct RecordPlan {
    pub session: Session,
    pub mentions: String,
    pub embed: ConsentEmbed,
}

/// Where and by whom `/record` was called.
pub struct RecordRequest {
    pub guild_id: Option<u64>,
    pub invoker: u64,
    pub text_channel_id: u64,
}

/// Who is refused, and what they are told.
pub open spec fn record_refusal(
    request: RecordRequest,
    states: Option<Seq<VoiceMember>>,
) -> Option<Seq<char>> {
    if request.guild_id is None {
        Some(NOT_IN_A_SERVER@)
    } else {
        match states {
            None => Some(SERVER_UNKNOWN@),
            Some(s) => if channel_of(s, request.invoker) is None {
                Some(NOT_IN_VOICE@)
            } else {
                None
            },
        }
    }
}

/// What `/record` leads to, given the voice states of the server as far as it is
/// known: a session in the channel of the user, with everyone there enrolled.
pub fn record(
    request: &RecordRequest,
    states: Option<&Vec<VoiceMember>>,
    min_participants: usize,
    require_all: bool,
) -> (r: Result<RecordPlan, &'static str>)
    ensures
        ({
            let seen = match states {
                Some(v) => Some(v@),
                None => None,
            };
            match r {
                Err(text) => record_refusal(*request, seen) == Some(text@),
                Ok(plan) => {
                    let channel = channel_of(seen->0, request.invoker)->0;
                    let people = attending(seen->0, channel);
                    &&& record_refusal(*request, seen) is None
                    &&& plan.session.wf()
                    &&& uuid_of_text(plan.session.id@) is Some
                    &&& plan.session.phase is AwaitingStabilization
                    &&& Some(plan.session.guild_id) == request.guild_id
                    &&& plan.session.channel_id == channel
                    &&& plan.session.text_channel_id == request.text_channel_id
                    &&& plan.session.initiator_id == request.invoker
                    &&& plan.session.min_participants == min_participants
                    &&& plan.session.require_all == require_all
                    &&& plan.session.ended_at is None
                    &&& plan.session.consent_message is None
                    &&& enrols_all(plan.session.participants@, people)
                    &&& plan.mentions@ == joined_by(mention_texts(people), " "@)
                    &&& plan.embed.asks(CONSENT_TEXT@, plan.session.participants@)
                },
            }
        }),
{
    let guild_id: u64 = match request.guild_id {
        Some(g) => g,
        None => {
            return Err(NOT_IN_A_SERVER);
        },
    };
    let states = match states {
        Some(s) => s,
        None => {
            return Err(SERVER_UNKNOWN);
        },
    };
    let channel_id: u64 = match find_channel(states, request.invoker) {
        Some(c) => c,
        None => {
            return Err(NOT_IN_VOICE);
        },
    };
    let members = attendees(states, channel_id);
    let mut session = Session::new(
        guild_id,
        channel_id,
        request.text_channel_id,
        request.invoker,
        min_participants,
        require_all,
    );
    enrol_all(&mut session, &members);
    let mentions = mentions_of(&members);
    let embed = session.consent_embed();
    Ok(RecordPlan { session, mentions, embed })
}

} // verus!
