//! The roll of a session: what everyone who takes part has chosen.
//!
//! A roll maps user ids to records. Whatever else a record holds, it tells who the
//! user is, what they chose and when, and whether they joined late. From that
//! follow the consent prompt and the files that describe a session.

use crate::collect::{enumerates, map_keys};
use crate::storage::bundle::{
    pseudonym, pseudonymize, AudioFormat, ConsentEntry, ConsentRecord, ConsentScope,
    ParticipantMeta, SessionMeta,
};
use crate::text::{join_by, joined_by, owned, same_text, texts};
use crate::time::{quotient_toward_zero, rfc3339_text, to_rfc3339, Timestamp};
use std::collections::HashMap;
use vstd::prelude::*;
use vstd::string::*;

verus! {

broadcast use vstd::std_specs::hash::group_hash_axioms;

/// One participant's record.
pub trait Record {
    spec fn user(&self) -> u64;

    spec fn name(&self) -> Seq<char>;

    spec fn choice(&self) -> Option<ConsentScope>;

    spec fn chosen_at(&self) -> Option<Timestamp>;

    spec fn joined_late(&self) -> bool;

    fn user_ref(&self) -> (u: u64)
        ensures
            u == self.user(),
    ;

    fn name_ref(&self) -> (n: &str)
        ensures
            n@ == self.name(),
    ;

    fn choice_ref(&self) -> (c: Option<ConsentScope>)
        ensures
            c == self.choice(),
    ;

    fn chosen_at_ref(&self) -> (t: Option<Timestamp>)
        ensures
            t == self.chosen_at(),
    ;

    fn joined_late_ref(&self) -> (b: bool)
        ensures
            b == self.joined_late(),
    ;
}

/// The participants with a given choice.
pub open spec fn choosers<R: Record>(m: Map<u64, R>, scope: Option<ConsentScope>) -> Set<u64> {
    m.dom().filter(|k: u64| m[k].choice() == scope)
}

/// Every participant has answered.
pub open spec fn everyone_answered<R: Record>(m: Map<u64, R>) -> bool {
    forall|k: u64| #[trigger] m.contains_key(k) ==> m[k].choice() is Some
}

/// Enough participants accepted, and nobody declined if all have to accept.
pub open spec fn has_quorum<R: Record>(
    m: Map<u64, R>,
    min_participants: usize,
    require_all: bool,
) -> bool {
    &&& !(require_all && choosers(m, Some(ConsentScope::Decline)).len() > 0)
    &&& choosers(m, Some(ConsentScope::Full)).len() >= min_participants
}

/// The user ids that the records in `order` hold.
pub open spec fn users_of<R: Record>(m: Map<u64, R>, order: Seq<u64>) -> Seq<u64> {
    order.map_values(|k: u64| m[k].user())
}

/// Every instant on the roll lies in the calendar range.
pub open spec fn instants_wf<R: Record>(m: Map<u64, R>) -> bool {
    forall|k: u64| #[trigger]
        m.contains_key(k) ==> (m[k].chosen_at() is Some ==> m[k].chosen_at()->0.wf())
}

/// The participants in `order` whose choice is `scope`, in that order.
pub open spec fn chosen_in<R: Record>(
    m: Map<u64, R>,
    order: Seq<u64>,
    scope: Option<ConsentScope>,
) -> Seq<u64>
    decreases order.len(),
{
    if order.len() == 0 {
        seq![]
    } else {
        let before = chosen_in(m, order.drop_last(), scope);
        if m[order.last()].choice() == scope {
            before.push(order.last())
        } else {
            before
        }
    }
}

proof fn lemma_chosen_in<R: Record>(
    m: Map<u64, R>,
    order: Seq<u64>,
    scope: Option<ConsentScope>,
)
    requires
        order.no_duplicates(),
        order.to_set().subset_of(m.dom()),
    ensures
        enumerates(
            chosen_in(m, order, scope),
            order.to_set().filter(|k: u64| m[k].choice() == scope),
        ),
    decreases order.len(),
{
    let f = |k: u64| m[k].choice() == scope;
    let got = chosen_in(m, order, scope);
    if order.len() > 0 {
        let front = order.drop_last();
        assert forall|k: u64| front.to_set().contains(k) implies m.dom().contains(k) by {
            let i = choose|i: int| 0 <= i < front.len() && front[i] == k;
            assert(order[i] == k);
            assert(order.to_set().contains(k));
        }
        lemma_chosen_in(m, front, scope);
        let before = chosen_in(m, front, scope);
        let x = order.last();
        assert(!front.contains(x)) by {
            if front.contains(x) {
                let i = choose|i: int| 0 <= i < front.len() && front[i] == x;
                assert(order[i] == order[order.len() - 1]);
            }
        }
        assert(!before.contains(x)) by {
            if before.contains(x) {
                assert(before.to_set().contains(x));
                assert(front.to_set().contains(x));
            }
        }
        assert forall|k: u64| order.to_set().filter(f).contains(k) implies got.to_set().contains(k) by {
            if k != x {
                let i = choose|i: int| 0 <= i < order.len() && order[i] == k;
                assert(front[i] == k);
                assert(front.to_set().filter(f).contains(k));
                assert(before.to_set().contains(k));
                let j = choose|j: int| 0 <= j < before.len() && before[j] == k;
                assert(got[j] == k);
            } else {
                assert(got.last() == x);
                assert(got[got.len() - 1] == x);
            }
        }
        assert forall|k: u64| got.to_set().contains(k) implies order.to_set().filter(f).contains(k) by {
            let j = choose|j: int| 0 <= j < got.len() && got[j] == k;
            if j < before.len() {
                assert(before[j] == k);
                assert(before.to_set().contains(k));
                assert(front.to_set().contains(k));
                let i = choose|i: int| 0 <= i < front.len() && front[i] == k;
                assert(order[i] == k);
            } else {
                assert(k == x);
                assert(order[order.len() - 1] == k);
            }
        }
        assert(got.to_set() =~= order.to_set().filter(f));
    } else {
        assert(got.to_set() =~= order.to_set().filter(f));
    }
}

/// Whether every participant has answered.
pub fn all_responded<R: Record>(m: &HashMap<u64, R>) -> (b: bool)
    ensures
        b == everyone_answered(m@),
{
    let keys = map_keys(m);
    let mut i: usize = 0;
    while i < keys.len()
        invariant
            0 <= i <= keys@.len(),
            keys@.to_set() == m@.dom(),
            forall|j: int|
                0 <= j < i ==> m@[#[trigger] keys@[j]].choice() is Some,
        decreases keys@.len() - i,
    {
        assert(keys@.to_set().contains(keys@[i as int]));
        assert(m@.contains_key(keys@[i as int]));
        match m.get(&keys[i]) {
            Some(p) => {
                if p.choice_ref().is_none() {
                    return false;
                }
            },
            None => {},
        }
        i = i + 1;
    }
    assert forall|k: u64| #[trigger] m@.contains_key(k) implies
        m@[k].choice() is Some by {
        assert(keys@.to_set().contains(k));
        let j = choose|j: int| 0 <= j < keys@.len() && keys@[j] == k;
        assert(m@[keys@[j]].choice() is Some);
    }
    true
}

/// The users whose choice is `scope`, in the order in which the records are
/// walked.
pub fn users_with<R: Record>(m: &HashMap<u64, R>, scope: Option<ConsentScope>) -> (users: Vec<u64>)
    ensures
        enumerates(users@, choosers(m@, scope)),
{
    let keys = map_keys(m);
    let mut users: Vec<u64> = Vec::new();
    let mut i: usize = 0;
    while i < keys.len()
        invariant
            0 <= i <= keys@.len(),
            keys@.to_set() == m@.dom(),
            users@ == chosen_in(m@, keys@.take(i as int), scope),
        decreases keys@.len() - i,
    {
        proof {
            assert(keys@.take(i + 1).drop_last() =~= keys@.take(i as int));
            assert(keys@.to_set().contains(keys@[i as int]));
            assert(m@.contains_key(keys@[i as int]));
        }
        let k: u64 = keys[i];
        match m.get(&k) {
            Some(p) => {
                let same = match (p.choice_ref(), scope) {
                    (None, None) => true,
                    (Some(a), Some(b)) => a == b,
                    _ => false,
                };
                if same {
                    users.push(k);
                }
            },
            None => {},
        }
        i = i + 1;
    }
    proof {
        assert(keys@.take(keys@.len() as int) =~= keys@);
        lemma_chosen_in(m@, keys@, scope);
        assert(choosers(m@, scope) =~= keys@.to_set().filter(
            |k: u64| m@[k].choice() == scope,
        ));
    }
    users
}

/// Whether any participant declined.
pub fn has_decline<R: Record>(m: &HashMap<u64, R>) -> (b: bool)
    ensures
        b == (choosers(m@, Some(ConsentScope::Decline)).len() > 0),
{
    let users = users_with(m, Some(ConsentScope::Decline));
    proof {
        users@.unique_seq_to_set();
    }
    users.len() > 0
}

/// The user ids in the records whose choice is `scope`, each record once.
pub fn ids_with<R: Record>(m: &HashMap<u64, R>, scope: Option<ConsentScope>) -> (ids: Vec<u64>)
    ensures
        exists|order: Seq<u64>| #[trigger]
            enumerates(order, choosers(m@, scope)) && ids@ == users_of(m@, order),
        ids@.len() == choosers(m@, scope).len(),
{
    let users = users_with(m, scope);
    let mut ids: Vec<u64> = Vec::new();
    let mut i: usize = 0;
    while i < users.len()
        invariant
            0 <= i <= users@.len(),
            users@.to_set() == choosers(m@, scope),
            ids@ == users_of(m@, users@.take(i as int)),
        decreases users@.len() - i,
    {
        assert(users@.to_set().contains(users@[i as int]));
        assert(m@.contains_key(users@[i as int]));
        match m.get(&users[i]) {
            Some(p) => {
                ids.push(p.user_ref());
            },
            None => {},
        }
        assert(ids@ =~= users_of(m@, users@.take(i + 1)));
        i = i + 1;
    }
    proof {
        users@.unique_seq_to_set();
        assert(users@.take(users@.len() as int) =~= users@);
    }
    ids
}

/// Where every record stands under its own user id, the ids in the records are
/// the keys.
pub proof fn lemma_own_ids<R: Record>(m: Map<u64, R>, order: Seq<u64>)
    requires
        order.to_set().subset_of(m.dom()),
        forall|k: u64| #[trigger] m.contains_key(k) ==> m[k].user() == k,
    ensures
        users_of(m, order) == order,
{
    assert forall|j: int| 0 <= j < order.len() implies users_of(m, order)[j] == order[j] by {
        assert(order.to_set().contains(order[j]));
        assert(m.contains_key(order[j]));
    }
    assert(users_of(m, order) =~= order);
}

/// Whether enough participants accepted.
pub fn evaluate_quorum<R: Record>(
    m: &HashMap<u64, R>,
    min_participants: usize,
    require_all: bool,
) -> (b: bool)
    ensures
        b == has_quorum(m@, min_participants, require_all),
{
    if require_all && has_decline(m) {
        return false;
    }
    ids_with(m, Some(ConsentScope::Full)).len() >= min_participants
}

/// One column of the consent prompt.
pub struct EmbedField {
    pub name: String,
    pub value: String,
    pub inline: bool,
}

/// The consent prompt.
pub struct ConsentEmbed {
    pub title: String,
    pub description: String,
    pub color: u32,
    pub fields: Vec<EmbedField>,
}

/// The title of the consent prompt.
pub const CONSENT_TITLE: &'static str = "Session Recording \u{2014} Open Dataset";

impl ConsentEmbed {
    /// The consent prompt with a given text, for the participants `m`.
    pub open spec fn asks<R: Record>(self, text: Seq<char>, m: Map<u64, R>) -> bool {
        &&& self.title@ == CONSENT_TITLE@
        &&& self.description@ == text
        &&& self.color == 0x5A5A5A
        &&& shows_choices(self.fields@, m)
    }
}

/// The display names of `order`.
pub open spec fn names<R: Record>(m: Map<u64, R>, order: Seq<u64>) -> Seq<Seq<char>> {
    order.map_values(|k: u64| m[k].name())
}

/// A column lists the display names of `users`, one to a line.
pub open spec fn lists<R: Record>(
    f: EmbedField,
    heading: Seq<char>,
    m: Map<u64, R>,
    users: Set<u64>,
) -> bool {
    &&& f.name@ == heading
    &&& f.inline
    &&& exists|order: Seq<u64>| #[trigger]
        enumerates(order, users) && f.value@ == joined_by(names(m, order), "\n"@)
}

/// The columns of the consent prompt: who is waited for, who accepted, who
/// declined. Empty columns are left out.
pub open spec fn shows_choices<R: Record>(fields: Seq<EmbedField>, m: Map<u64, R>) -> bool {
    let pending = choosers(m, None);
    let accepted = choosers(m, Some(ConsentScope::Full));
    let declined = choosers(m, Some(ConsentScope::Decline));
    let a = if pending.len() > 0 {
        1int
    } else {
        0
    };
    let b = if accepted.len() > 0 {
        a + 1
    } else {
        a
    };
    let c = if declined.len() > 0 {
        b + 1
    } else {
        b
    };
    &&& fields.len() == c
    &&& pending.len() > 0 ==> lists(fields[0], "Waiting for"@, m, pending)
    &&& accepted.len() > 0 ==> lists(fields[a], "Accepted"@, m, accepted)
    &&& declined.len() > 0 ==> lists(fields[b], "Declined"@, m, declined)
}

/// A column of the consent prompt, unless it is empty.
fn push_column<R: Record>(
    roll: &HashMap<u64, R>,
    fields: &mut Vec<EmbedField>,
    heading: &str,
    scope: Option<ConsentScope>,
)
    ensures
        ({
            let users = choosers(roll@, scope);
            if users.len() > 0 {
                &&& final(fields)@ == old(fields)@.push(final(fields)@.last())
                &&& lists(final(fields)@.last(), heading@, roll@, users)
            } else {
                final(fields)@ == old(fields)@
            }
        }),
{
    let users = users_with(roll, scope);
    let ghost m = roll@;
    proof {
        users@.unique_seq_to_set();
    }
    if users.len() == 0 {
        return;
    }
    let mut lines: Vec<String> = Vec::new();
    let mut i: usize = 0;
    assert(texts(lines@) =~= names(m, users@.take(0)));
    while i < users.len()
        invariant
            0 <= i <= users@.len(),
            m == roll@,
            users@.to_set() == choosers(m, scope),
            texts(lines@) == names(m, users@.take(i as int)),
        decreases users@.len() - i,
    {
        assert(users@.to_set().contains(users@[i as int]));
        assert(m.contains_key(users@[i as int]));
        let ghost before = texts(lines@);
        match roll.get(&users[i]) {
            Some(p) => {
                lines.push(owned(p.name_ref()));
                assert(texts(lines@) =~= before.push(p.name()));
            },
            None => {},
        }
        assert(names(m, users@.take(i + 1)) =~= names(m, users@.take(i as int)).push(
            m[users@[i as int]].name(),
        ));
        i = i + 1;
    }
    assert(users@.take(users@.len() as int) =~= users@);
    let f = EmbedField { name: owned(heading), value: join_by(&lines, "\n"), inline: true };
    assert(enumerates(users@, choosers(m, scope)));
    assert(lists(f, heading@, m, choosers(m, scope)));
    fields.push(f);
}

/// The consent prompt as it stands.
pub fn consent_embed<R: Record>(text: &str, m: &HashMap<u64, R>) -> (e: ConsentEmbed)
    ensures
        e.asks(text@, m@),
{
    let mut fields: Vec<EmbedField> = Vec::new();
    push_column(m, &mut fields, "Waiting for", None);
    let ghost one = fields@;
    push_column(m, &mut fields, "Accepted", Some(ConsentScope::Full));
    let ghost two = fields@;
    push_column(m, &mut fields, "Declined", Some(ConsentScope::Decline));
    proof {
        let pending = choosers(m@, None);
        let accepted = choosers(m@, Some(ConsentScope::Full));
        if pending.len() > 0 {
            assert(fields@[0] == one[0]);
        }
        if accepted.len() > 0 {
            assert(fields@[two.len() - 1] == two.last());
        }
    }
    ConsentEmbed {
        title: owned(CONSENT_TITLE),
        description: owned(text),
        color: 0x5A5A5A,
        fields,
    }
}

/// The whole milliseconds of a session, zero for one that has not ended.
pub open spec fn session_ms(started_at: Timestamp, ended_at: Option<Timestamp>) -> int {
    match ended_at {
        Some(e) => quotient_toward_zero(e.as_nanos() - started_at.as_nanos(), 1_000_000),
        None => 0,
    }
}

/// `d` describes `p` under a pseudonym; only who accepted has a track.
pub open spec fn describes<R: Record>(d: ParticipantMeta, p: R) -> bool {
    &&& d.pseudo_id@ == pseudonym(p.user())
    &&& match d.track_file {
        Some(track) => p.choice() == Some(ConsentScope::Full) && track@ == "audio/"@ + pseudonym(
            p.user(),
        ) + "/"@,
        None => p.choice() != Some(ConsentScope::Full),
    }
    &&& d.consent_scope == p.choice()
}

/// One participant's choice, as a value.
pub struct EntryValue {
    pub consented_at: Option<Seq<char>>,
    pub scope: Option<ConsentScope>,
    pub audio_release: bool,
    pub mid_session_join: bool,
}

/// What is recorded of a participant's choice.
pub open spec fn recorded<R: Record>(p: R) -> EntryValue {
    EntryValue {
        consented_at: match p.chosen_at() {
            Some(t) => Some(rfc3339_text(t.secs, t.nanos)),
            None => None,
        },
        scope: p.choice(),
        audio_release: p.choice() == Some(ConsentScope::Full),
        mid_session_join: p.joined_late(),
    }
}

/// A recorded choice, as a value.
pub open spec fn entry_value(e: ConsentEntry) -> EntryValue {
    EntryValue {
        consented_at: match e.consented_at {
            Some(t) => Some(t@),
            None => None,
        },
        scope: e.scope,
        audio_release: e.audio_release,
        mid_session_join: e.mid_session_join,
    }
}

/// The choices of the participants in `order`, by pseudonym. Of two who share a
/// pseudonym the later one counts.
pub open spec fn recorded_in<R: Record>(m: Map<u64, R>, order: Seq<u64>) -> Map<
    Seq<char>,
    EntryValue,
>
    decreases order.len(),
{
    if order.len() == 0 {
        Map::empty()
    } else {
        let p = m[order.last()];
        recorded_in(m, order.drop_last()).insert(pseudonym(p.user()), recorded(p))
    }
}

/// `entries` holds what `m` maps, each key once.
pub open spec fn holds(entries: Seq<(String, ConsentEntry)>, m: Map<Seq<char>, EntryValue>) -> bool {
    &&& forall|i: int, j: int|
        0 <= i < j < entries.len() ==> (#[trigger] entries[i]).0@ != (#[trigger] entries[j]).0@
    &&& forall|i: int|
        0 <= i < entries.len() ==> m.contains_key((#[trigger] entries[i]).0@)
            && m[entries[i].0@] == entry_value(entries[i].1)
    &&& forall|k: Seq<char>| #[trigger]
        m.contains_key(k) ==> exists|i: int|
            0 <= i < entries.len() && (#[trigger] entries[i]).0@ == k
}

/// Put a choice under its pseudonym, in place of one that is there.
fn put_entry(
    entries: &mut Vec<(String, ConsentEntry)>,
    pseudo: String,
    entry: ConsentEntry,
    Ghost(m): Ghost<Map<Seq<char>, EntryValue>>,
)
    requires
        holds(old(entries)@, m),
    ensures
        holds(final(entries)@, m.insert(pseudo@, entry_value(entry))),
{
    let ghost after = m.insert(pseudo@, entry_value(entry));
    let mut i: usize = 0;
    while i < entries.len()
        invariant
            0 <= i <= entries@.len(),
            entries@ == old(entries)@,
            holds(old(entries)@, m),
            after == m.insert(pseudo@, entry_value(entry)),
            forall|j: int| 0 <= j < i ==> (#[trigger] entries@[j]).0@ != pseudo@,
        decreases entries@.len() - i,
    {
        if same_text(entries[i].0.as_str(), pseudo.as_str()) {
            let ghost key = pseudo@;
            entries.set(i, (pseudo, entry));
            proof {
                let was = old(entries)@;
                assert(was[i as int].0@ == key);
                assert forall|k: Seq<char>| #[trigger] after.contains_key(k) implies exists|j: int|
                    0 <= j < entries@.len() && (#[trigger] entries@[j]).0@ == k by {
                    if k == key {
                        assert(entries@[i as int].0@ == k);
                    } else {
                        assert(m.contains_key(k));
                        let j = choose|j: int|
                            0 <= j < was.len() && (#[trigger] was[j]).0@ == k;
                        assert(entries@[j].0@ == k);
                    }
                }
                assert forall|j: int| 0 <= j < entries@.len() implies after.contains_key(
                    (#[trigger] entries@[j]).0@,
                ) && after[entries@[j].0@] == entry_value(entries@[j].1) by {
                    if j != i {
                        assert(entries@[j] == was[j]);
                        assert(was[j].0@ != was[i as int].0@);
                    }
                }
                assert forall|a: int, b: int| 0 <= a < b < entries@.len() implies (
                #[trigger] entries@[a]).0@ != (#[trigger] entries@[b]).0@ by {
                    assert(was[a].0@ != was[b].0@);
                }
            }
            return;
        }
        i = i + 1;
    }
    let ghost key = pseudo@;
    entries.push((pseudo, entry));
    proof {
        let was = old(entries)@;
        let n = was.len() as int;
        assert forall|k: Seq<char>| #[trigger] after.contains_key(k) implies exists|j: int|
            0 <= j < entries@.len() && (#[trigger] entries@[j]).0@ == k by {
            if k == key {
                assert(entries@[n].0@ == k);
            } else {
                assert(m.contains_key(k));
                let j = choose|j: int| 0 <= j < was.len() && (#[trigger] was[j]).0@ == k;
                assert(entries@[j].0@ == k);
            }
        }
        assert forall|j: int| 0 <= j < entries@.len() implies after.contains_key(
            (#[trigger] entries@[j]).0@,
        ) && after[entries@[j].0@] == entry_value(entries@[j].1) by {
            if j < n {
                assert(entries@[j] == was[j]);
            }
        }
        assert forall|a: int, b: int| 0 <= a < b < entries@.len() implies (
        #[trigger] entries@[a]).0@ != (#[trigger] entries@[b]).0@ by {
            assert(entries@[a] == was[a]);
            if b < n {
                assert(entries@[b] == was[b]);
            }
        }
    }
}

fn describe<R: Record>(p: &R) -> (d: ParticipantMeta)
    ensures
        describes(d, *p),
{
    let pseudo = pseudonymize(p.user_ref());
    let choice = p.choice_ref();
    let track_file = match choice {
        Some(ConsentScope::Full) => {
            let mut track = owned("audio/");
            track.append(pseudo.as_str());
            track.append("/");
            Some(track)
        },
        _ => None,
    };
    ParticipantMeta { pseudo_id: pseudo, track_file, consent_scope: choice }
}

fn record_choice<R: Record>(p: &R) -> (e: ConsentEntry)
    requires
        p.chosen_at() is Some ==> p.chosen_at()->0.wf(),
    ensures
        entry_value(e) == recorded(*p),
{
    let consented_at = match p.chosen_at_ref() {
        Some(t) => Some(to_rfc3339(&t)),
        None => None,
    };
    let choice = p.choice_ref();
    let audio_release = match choice {
        Some(ConsentScope::Full) => true,
        _ => false,
    };
    ConsentEntry {
        consented_at,
        scope: choice,
        audio_release,
        mid_session_join: p.joined_late_ref(),
    }
}

/// `meta` describes a session with the given id, times and roll: each
/// participant once, in some order.
pub open spec fn sums_up<R: Record>(
    meta: SessionMeta,
    id: Seq<char>,
    started_at: Timestamp,
    ended_at: Option<Timestamp>,
    m: Map<u64, R>,
) -> bool {
    &&& meta.session_id@ == id
    &&& meta.started_at == started_at
    &&& meta.ended_at == ended_at
    &&& meta.duration_ms == session_ms(started_at, ended_at)
    &&& meta.game_system is None
    &&& meta.campaign_name is None
    &&& meta.session_number is None
    &&& meta.participant_count == m.len()
    &&& meta.consented_audio_count == choosers(m, Some(ConsentScope::Full)).len()
    &&& meta.audio_format.is_raw_pcm()
    &&& exists|order: Seq<u64>| #[trigger]
        enumerates(order, m.dom()) && meta.participants@.len() == order.len() && forall|i: int|
            0 <= i < order.len() ==> describes(#[trigger] meta.participants@[i], m[order[i]])
}

/// `r` holds the choices on the roll of a session.
pub open spec fn holds_choices<R: Record>(r: ConsentRecord, id: Seq<char>, m: Map<u64, R>) -> bool {
    &&& r.session_id@ == id
    &&& r.consent_version@ == "1.0"@
    &&& r.license@ == "CC BY-SA 4.0"@
    &&& exists|order: Seq<u64>| #[trigger]
        enumerates(order, m.dom()) && holds(r.participants@, recorded_in(m, order))
}

/// What `meta.json` says of a session.
pub fn session_meta<R: Record>(
    id: &str,
    started_at: Timestamp,
    ended_at: Option<Timestamp>,
    m: &HashMap<u64, R>,
) -> (meta: SessionMeta)
    requires
        started_at.wf(),
        ended_at is Some ==> ended_at->0.wf(),
    ensures
        sums_up(meta, id@, started_at, ended_at, m@),
{
    let duration_ms: i64 = match ended_at {
        Some(e) => e.millis_since(&started_at),
        None => 0,
    };
    let keys = map_keys(m);
    let mut participants: Vec<ParticipantMeta> = Vec::new();
    let mut i: usize = 0;
    while i < keys.len()
        invariant
            0 <= i <= keys@.len(),
            keys@.to_set() == m@.dom(),
            participants@.len() == i,
            forall|j: int| 0 <= j < i ==> describes(#[trigger] participants@[j], m@[keys@[j]]),
        decreases keys@.len() - i,
    {
        assert(keys@.to_set().contains(keys@[i as int]));
        assert(m@.contains_key(keys@[i as int]));
        match m.get(&keys[i]) {
            Some(p) => {
                participants.push(describe(p));
            },
            None => {},
        }
        i = i + 1;
    }
    assert(enumerates(keys@, m@.dom()));
    SessionMeta {
        session_id: owned(id),
        started_at,
        ended_at,
        duration_ms,
        game_system: None,
        campaign_name: None,
        session_number: None,
        participant_count: m.len(),
        consented_audio_count: ids_with(m, Some(ConsentScope::Full)).len(),
        audio_format: AudioFormat::raw_pcm(),
        participants,
    }
}

/// What `consent.json` says of a session.
pub fn consent_record<R: Record>(id: &str, m: &HashMap<u64, R>) -> (r: ConsentRecord)
    requires
        instants_wf(m@),
    ensures
        holds_choices(r, id@, m@),
{
    let keys = map_keys(m);
    let mut entries: Vec<(String, ConsentEntry)> = Vec::new();
    let mut i: usize = 0;
    assert(keys@.take(0) =~= seq![]);
    while i < keys.len()
        invariant
            0 <= i <= keys@.len(),
            instants_wf(m@),
            keys@.to_set() == m@.dom(),
            holds(entries@, recorded_in(m@, keys@.take(i as int))),
        decreases keys@.len() - i,
    {
        assert(keys@.to_set().contains(keys@[i as int]));
        assert(m@.contains_key(keys@[i as int]));
        assert(keys@.take(i + 1).drop_last() =~= keys@.take(i as int));
        match m.get(&keys[i]) {
            Some(p) => {
                put_entry(
                    &mut entries,
                    pseudonymize(p.user_ref()),
                    record_choice(p),
                    Ghost(recorded_in(m@, keys@.take(i as int))),
                );
            },
            None => {},
        }
        i = i + 1;
    }
    assert(keys@.take(keys@.len() as int) =~= keys@);
    assert(enumerates(keys@, m@.dom()));
    ConsentRecord {
        session_id: owned(id),
        consent_version: owned("1.0"),
        license: owned("CC BY-SA 4.0"),
        participants: entries,
    }
}

} // verus!
