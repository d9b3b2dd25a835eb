//! What the prompt and the files of a session say of each participant.

use crate::collect::enumerates;
use crate::plain::nanos;
use crate::roll::{
    choosers, everyone_answered, has_quorum, holds_choices, names, recorded,
    recorded_in, sums_up, users_of, ConsentEmbed, EmbedField, Record,
};
use crate::storage::bundle::{
    pseudonym, ConsentEntry, ConsentRecord, ConsentScope, ParticipantMeta, SessionMeta,
};
use crate::text::joined_by;
use crate::time::{rfc3339_text, Timestamp};
use vstd::prelude::*;
use vstd::string::*;

verus! {

/// Entry `e` says what `p` chose: the choice and its time, whether they joined
/// late, and that their audio may be released exactly if they accepted in full.
pub open spec fn tells<R: Record>(e: ConsentEntry, p: R) -> bool {
    &&& e.audio_release <==> p.choice() == Some(ConsentScope::Full)
    &&& e.scope == p.choice()
    &&& e.mid_session_join == p.joined_late()
    &&& match (e.consented_at, p.chosen_at()) {
        (Some(text), Some(t)) => text@ == rfc3339_text(t.secs, t.nanos),
        (None, None) => true,
        _ => false,
    }
}

/// No other participant has the pseudonym of participant `k`.
pub open spec fn alone<R: Record>(m: Map<u64, R>, k: u64) -> bool {
    forall|l: u64| #[trigger]
        m.contains_key(l) && l != k ==> pseudonym(m[l].user()) != pseudonym(m[k].user())
}

proof fn lemma_recorded_in<R: Record>(m: Map<u64, R>, order: Seq<u64>, name: Seq<char>)
    requires
        recorded_in(m, order).contains_key(name),
    ensures
        exists|i: int|
            0 <= i < order.len() && pseudonym(m[#[trigger] order[i]].user()) == name && recorded_in(
                m,
                order,
            )[name] == recorded(m[order[i]]),
    decreases order.len(),
{
    let front = order.drop_last();
    let n = order.len() - 1;
    assert(order.last() == order[n]);
    if pseudonym(m[order[n]].user()) != name {
        lemma_recorded_in(m, front, name);
        let i = choose|i: int|
            0 <= i < front.len() && pseudonym(m[#[trigger] front[i]].user()) == name && recorded_in(
                m,
                front,
            )[name] == recorded(m[front[i]]);
        assert(order[i] == front[i]);
    }
}

proof fn lemma_all_recorded<R: Record>(m: Map<u64, R>, order: Seq<u64>, i: int)
    requires
        0 <= i < order.len(),
    ensures
        recorded_in(m, order).contains_key(pseudonym(m[order[i]].user())),
    decreases order.len(),
{
    if i < order.len() - 1 {
        lemma_all_recorded(m, order.drop_last(), i);
        assert(order.drop_last()[i] == order[i]);
    }
}

/// Every entry of a consent record says what a participant with that pseudonym
/// chose, and no pseudonym stands there twice. So where nobody with a pseudonym
/// accepted in full, nothing under it is released.
pub proof fn law_entries_tell_the_truth<R: Record>(
    r: ConsentRecord,
    id: Seq<char>,
    m: Map<u64, R>,
    i: int,
)
    requires
        holds_choices(r, id, m),
        0 <= i < r.participants@.len(),
    ensures
        exists|k: u64| #[trigger]
            m.contains_key(k) && r.participants@[i].0@ == pseudonym(m[k].user()) && tells(
                r.participants@[i].1,
                m[k],
            ),
        forall|j: int|
            0 <= j < r.participants@.len() && j != i ==> (#[trigger] r.participants@[j]).0@
                != r.participants@[i].0@,
{
    let order = choose|order: Seq<u64>| #[trigger]
        enumerates(order, m.dom()) && crate::roll::holds(r.participants@, recorded_in(m, order));
    let name = r.participants@[i].0@;
    assert(recorded_in(m, order).contains_key(name));
    lemma_recorded_in(m, order, name);
    let a = choose|a: int|
        0 <= a < order.len() && pseudonym(m[#[trigger] order[a]].user()) == name && recorded_in(
            m,
            order,
        )[name] == recorded(m[order[a]]);
    assert(order.to_set().contains(order[a]));
    assert(m.contains_key(order[a]));
}

/// The entry under a participant's pseudonym says what they chose: their audio is
/// released exactly if they accepted in full. Who declined, declined audio or has
/// not answered is never released. Everyone has an entry.
pub proof fn law_release_is_full_consent<R: Record>(
    r: ConsentRecord,
    id: Seq<char>,
    m: Map<u64, R>,
    k: u64,
)
    requires
        holds_choices(r, id, m),
        m.contains_key(k),
    ensures
        exists|i: int|
            0 <= i < r.participants@.len() && (#[trigger] r.participants@[i]).0@ == pseudonym(
                m[k].user(),
            ),
        alone(m, k) ==> forall|i: int|
            0 <= i < r.participants@.len() && (#[trigger] r.participants@[i]).0@ == pseudonym(
                m[k].user(),
            ) ==> {
                &&& r.participants@[i].1.audio_release <==> m[k].choice() == Some(
                    ConsentScope::Full,
                )
                &&& tells(r.participants@[i].1, m[k])
            },
{
    let order = choose|order: Seq<u64>| #[trigger]
        enumerates(order, m.dom()) && crate::roll::holds(r.participants@, recorded_in(m, order));
    assert(order.to_set().contains(k));
    let a = choose|a: int| 0 <= a < order.len() && order[a] == k;
    lemma_all_recorded(m, order, a);
    if alone(m, k) {
        assert forall|i: int|
            0 <= i < r.participants@.len() && (#[trigger] r.participants@[i]).0@ == pseudonym(
                m[k].user(),
            ) implies tells(r.participants@[i].1, m[k]) by {
            law_entries_tell_the_truth(r, id, m, i);
            let l = choose|l: u64| #[trigger]
                m.contains_key(l) && r.participants@[i].0@ == pseudonym(m[l].user()) && tells(
                    r.participants@[i].1,
                    m[l],
                );
            assert(l == k);
        }
    }
}

/// A consent record names its session, the version of the consent text and the
/// license, and a session description its session.
pub proof fn law_record_heads<R: Record>(
    r: ConsentRecord,
    meta: SessionMeta,
    id: Seq<char>,
    started_at: Timestamp,
    ended_at: Option<Timestamp>,
    m: Map<u64, R>,
)
    requires
        holds_choices(r, id, m),
        sums_up(meta, id, started_at, ended_at, m),
    ensures
        r.session_id@ == id && meta.session_id@ == id,
        r.consent_version@ == "1.0"@,
        r.license@ == "CC BY-SA 4.0"@,
        meta.started_at == started_at && meta.ended_at == ended_at,
        meta.game_system is None && meta.campaign_name is None && meta.session_number is None,
{
}

/// `d` speaks of `p`: under the pseudonym, with the choice, and with a track
/// exactly if they accepted in full.
pub open spec fn speaks_of<R: Record>(d: ParticipantMeta, p: R) -> bool {
    &&& d.pseudo_id@ == pseudonym(p.user())
    &&& d.consent_scope == p.choice()
    &&& d.track_file is Some <==> p.choice() == Some(ConsentScope::Full)
    &&& d.track_file is Some ==> d.track_file->0@ == "audio/"@ + pseudonym(p.user()) + "/"@
}

/// A session's description speaks of every participant once and of nobody else.
pub proof fn law_meta_speaks_of_everyone<R: Record>(
    meta: SessionMeta,
    id: Seq<char>,
    started_at: Timestamp,
    ended_at: Option<Timestamp>,
    m: Map<u64, R>,
) -> (order: Seq<u64>)
    requires
        sums_up(meta, id, started_at, ended_at, m),
    ensures
        order.no_duplicates(),
        forall|k: u64| #[trigger] m.contains_key(k) <==> order.contains(k),
        meta.participants@.len() == order.len() == meta.participant_count,
        forall|i: int|
            0 <= i < order.len() ==> speaks_of(#[trigger] meta.participants@[i], m[order[i]]),
{
    let order = choose|order: Seq<u64>| #[trigger]
        enumerates(order, m.dom()) && meta.participants@.len() == order.len() && forall|i: int|
            0 <= i < order.len() ==> crate::roll::describes(
                #[trigger] meta.participants@[i],
                m[order[i]],
            );
    order.unique_seq_to_set();
    assert forall|k: u64| #[trigger] m.contains_key(k) <==> order.contains(k) by {
        assert(m.dom().contains(k) <==> order.to_set().contains(k));
    }
    order
}

/// A session's description counts those who accepted in full, and gives the whole
/// milliseconds from the start to the end, none while there is no end.
pub proof fn law_meta_counts<R: Record>(
    meta: SessionMeta,
    id: Seq<char>,
    started_at: Timestamp,
    ended_at: Option<Timestamp>,
    m: Map<u64, R>,
    accepted: Set<u64>,
)
    requires
        sums_up(meta, id, started_at, ended_at, m),
        forall|k: u64| #[trigger]
            accepted.contains(k) <==> m.contains_key(k) && m[k].choice() == Some(ConsentScope::Full),
    ensures
        meta.consented_audio_count == accepted.len(),
        match ended_at {
            None => meta.duration_ms == 0,
            Some(end) => {
                let span = nanos(end) - nanos(started_at);
                if span >= 0 {
                    meta.duration_ms * 1_000_000 <= span < (meta.duration_ms + 1) * 1_000_000
                } else {
                    (meta.duration_ms - 1) * 1_000_000 < span <= meta.duration_ms * 1_000_000
                }
            },
        },
{
    assert(choosers(m, Some(ConsentScope::Full)) =~= accepted);
}

/// A session may go on exactly if enough participants accepted in full and, where
/// all have to, nobody declined.
pub proof fn law_quorum<R: Record>(
    m: Map<u64, R>,
    min_participants: usize,
    require_all: bool,
    accepted: Set<u64>,
)
    requires
        m.dom().finite(),
        forall|k: u64| #[trigger]
            accepted.contains(k) <==> m.contains_key(k) && m[k].choice() == Some(ConsentScope::Full),
    ensures
        has_quorum(m, min_participants, require_all) <==> {
            &&& accepted.len() >= min_participants
            &&& require_all ==> forall|k: u64| #[trigger]
                m.contains_key(k) ==> m[k].choice() != Some(ConsentScope::Decline)
        },
{
    assert(choosers(m, Some(ConsentScope::Full)) =~= accepted);
    let declined = choosers(m, Some(ConsentScope::Decline));
    if declined.len() == 0 {
        assert forall|k: u64| #[trigger] m.contains_key(k) implies m[k].choice() != Some(
            ConsentScope::Decline,
        ) by {
            assert(!declined.contains(k));
        }
    } else {
        let k = declined.choose();
        assert(declined.contains(k));
        assert(m.contains_key(k));
    }
}

/// One participant who has not answered keeps the others waiting; nothing else
/// does.
pub proof fn law_waiting_for_answers<R: Record>(m: Map<u64, R>)
    ensures
        !everyone_answered(m) <==> exists|k: u64| #[trigger]
            m.contains_key(k) && m[k].choice() is None,
{
}

/// A column with this heading lists those with this choice, each once, one to a
/// line, and nobody else.
pub open spec fn column_of<R: Record>(
    f: EmbedField,
    heading: Seq<char>,
    m: Map<u64, R>,
    choice: Option<ConsentScope>,
) -> bool {
    &&& f.name@ == heading
    &&& f.inline
    &&& exists|order: Seq<u64>|
        {
            &&& #[trigger] order.no_duplicates()
            &&& forall|k: u64| #[trigger]
                order.contains(k) <==> m.contains_key(k) && m[k].choice() == choice
            &&& f.value@ == joined_by(order.map_values(|k: u64| m[k].name()), "\n"@)
        }
}

proof fn lemma_column<R: Record>(
    f: EmbedField,
    heading: Seq<char>,
    m: Map<u64, R>,
    choice: Option<ConsentScope>,
)
    requires
        crate::roll::lists(f, heading, m, choosers(m, choice)),
    ensures
        column_of(f, heading, m, choice),
{
    let users = choosers(m, choice);
    let order = choose|order: Seq<u64>| #[trigger]
        enumerates(order, users) && f.value@ == joined_by(names(m, order), "\n"@);
    assert(names(m, order) =~= order.map_values(|k: u64| m[k].name()));
    assert forall|k: u64| #[trigger] order.contains(k) <==> m.contains_key(k) && m[k].choice()
        == choice by {
        assert(users.contains(k) <==> order.to_set().contains(k));
    }
}

/// The consent prompt has a column for those who have not answered, one for those
/// who accepted and one for those who declined, in that order, each if and only
/// if there is someone to list, and no others.
pub proof fn law_prompt_columns<R: Record>(
    e: ConsentEmbed,
    text: Seq<char>,
    m: Map<u64, R>,
)
    requires
        m.dom().finite(),
        e.asks(text, m),
    ensures
        e.description@ == text,
        ({
            let waiting = exists|k: u64| #[trigger] m.contains_key(k) && m[k].choice() is None;
            let accepted = exists|k: u64| #[trigger]
                m.contains_key(k) && m[k].choice() == Some(ConsentScope::Full);
            let declined = exists|k: u64| #[trigger]
                m.contains_key(k) && m[k].choice() == Some(ConsentScope::Decline);
            let a: int = if waiting {
                1
            } else {
                0
            };
            let b: int = if accepted {
                a + 1
            } else {
                a
            };
            let c: int = if declined {
                b + 1
            } else {
                b
            };
            &&& e.fields@.len() == c
            &&& waiting ==> column_of(e.fields@[0], "Waiting for"@, m, None)
            &&& accepted ==> column_of(e.fields@[a], "Accepted"@, m, Some(ConsentScope::Full))
            &&& declined ==> column_of(e.fields@[b], "Declined"@, m, Some(ConsentScope::Decline))
        }),
{
    lemma_someone(m, None);
    lemma_someone(m, Some(ConsentScope::Full));
    lemma_someone(m, Some(ConsentScope::Decline));
    let fields = e.fields@;
    let a: int = if choosers(m, None).len() > 0 {
        1
    } else {
        0
    };
    let b: int = if choosers(m, Some(ConsentScope::Full)).len() > 0 {
        a + 1
    } else {
        a
    };
    if choosers(m, None).len() > 0 {
        lemma_column(fields[0], "Waiting for"@, m, None);
    }
    if choosers(m, Some(ConsentScope::Full)).len() > 0 {
        lemma_column(fields[a], "Accepted"@, m, Some(ConsentScope::Full));
    }
    if choosers(m, Some(ConsentScope::Decline)).len() > 0 {
        lemma_column(fields[b], "Declined"@, m, Some(ConsentScope::Decline));
    }
}

proof fn lemma_someone<R: Record>(m: Map<u64, R>, choice: Option<ConsentScope>)
    requires
        m.dom().finite(),
    ensures
        choosers(m, choice).len() > 0 <==> exists|k: u64| #[trigger]
            m.contains_key(k) && m[k].choice() == choice,
{
    let s = choosers(m, choice);
    if s.len() > 0 {
        let k = s.choose();
        assert(s.contains(k));
        assert(m.contains_key(k));
    } else {
        assert forall|k: u64| #[trigger] m.contains_key(k) implies m[k].choice() != choice by {
            assert(!s.contains(k));
        }
    }
}

/// Those with a given choice are the participants who made it.
pub proof fn law_choosers<R: Record>(m: Map<u64, R>, choice: Option<ConsentScope>, user: u64)
    ensures
        choosers(m, choice).contains(user) <==> m.contains_key(user) && m[user].choice() == choice,
{
}

/// A listing of users or names follows the order of its records.
pub proof fn law_users_and_names<R: Record>(m: Map<u64, R>, order: Seq<u64>, i: int)
    requires
        0 <= i < order.len(),
    ensures
        users_of(m, order).len() == order.len(),
        users_of(m, order)[i] == m[order[i]].user(),
        names(m, order).len() == order.len(),
        names(m, order)[i] == m[order[i]].name(),
{
}

/// The consent prompt bears the title and the text that go with it.
pub proof fn law_prompt_text<R: Record>(e: ConsentEmbed, text: Seq<char>, m: Map<u64, R>)
    requires
        e.asks(text, m),
    ensures
        e.title@ == "Session Recording \u{2014} Open Dataset"@,
        e.description@ == text,
        e.color == 0x5A5A5A,
{
}

/// Every track is 48 kHz stereo, in signed 16-bit little-endian samples.
pub proof fn law_audio_format<R: Record>(
    meta: SessionMeta,
    id: Seq<char>,
    started_at: Timestamp,
    ended_at: Option<Timestamp>,
    m: Map<u64, R>,
)
    requires
        sums_up(meta, id, started_at, ended_at, m),
    ensures
        meta.audio_format.sample_rate == 48000,
        meta.audio_format.bit_depth == 16,
        meta.audio_format.channels == 2,
        meta.audio_format.codec@ == "pcm_s16le"@,
        meta.audio_format.container@ == "raw"@,
{
}

} // verus!
