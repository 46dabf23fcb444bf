//! How the ask store changes the records it holds. Every change is
//! conditional on the ask still being `pending`: whichever answer or
//! timeout reaches a pending ask first resolves it, and a resolved ask
//! never changes again.

use vstd::prelude::*;
use vstd::string::*;
use crate::discord::ask::{overdue, AskRecord, AskStatus};
use crate::text::lex_lt;

verus! {

/// `after` is `before` answered with `(kind, value, by, at)`.
pub open spec fn answered_with(
    before: AskRecord,
    after: AskRecord,
    kind: Seq<char>,
    value: Seq<char>,
    by: Seq<char>,
    at: Seq<char>,
) -> bool {
    &&& after.ask_id == before.ask_id
    &&& after.channel_id == before.channel_id
    &&& after.question == before.question
    &&& after.options == before.options
    &&& after.allow_text == before.allow_text
    &&& after.created_at == before.created_at
    &&& after.timeout_at == before.timeout_at
    &&& after.status == AskStatus::Answered
    &&& after.kind matches Some(k) && k@ == kind
    &&& after.value matches Some(v) && v@ == value
    &&& after.answered_by matches Some(b) && b@ == by
    &&& after.answered_at matches Some(t) && t@ == at
}

/// `before` with its status set to timed out, nothing else changed.
pub open spec fn timed_out(before: AskRecord) -> AskRecord {
    AskRecord { status: AskStatus::TimedOut, ..before }
}

/// One answer attempt: a pending ask adopts the answer and the attempt
/// wins; any other ask is left as it is and the attempt loses.
pub open spec fn answer_step(
    before: AskRecord,
    after: AskRecord,
    won: bool,
    kind: Seq<char>,
    value: Seq<char>,
    by: Seq<char>,
    at: Seq<char>,
) -> bool {
    &&& won == (before.status == AskStatus::Pending)
    &&& won ==> answered_with(before, after, kind, value, by, at)
    &&& !won ==> after == before
}

/// One timeout attempt: a pending ask times out and the attempt wins; any
/// other ask is left as it is.
pub open spec fn timeout_step(before: AskRecord, after: AskRecord, won: bool) -> bool {
    &&& won == (before.status == AskStatus::Pending)
    &&& won ==> after == timed_out(before)
    &&& !won ==> after == before
}

/// Adopts the answer iff the ask is still pending; answers whether it did.
pub fn try_answer(record: &mut AskRecord, kind: &str, value: &str, answered_by: &str, answered_at: &str) -> (won: bool)
    ensures
        answer_step(*old(record), *final(record), won, kind@, value@, answered_by@, answered_at@),
        old(record).wf() ==> final(record).wf(),
{
    if record.status != AskStatus::Pending {
        return false;
    }
    record.status = AskStatus::Answered;
    record.kind = Some(kind.to_owned());
    record.value = Some(value.to_owned());
    record.answered_by = Some(answered_by.to_owned());
    record.answered_at = Some(answered_at.to_owned());
    true
}

/// Times the ask out iff it is still pending; answers whether it did.
pub fn try_timeout(record: &mut AskRecord) -> (won: bool)
    ensures
        timeout_step(*old(record), *final(record), won),
{
    if record.status != AskStatus::Pending {
        return false;
    }
    record.status = AskStatus::TimedOut;
    true
}

/// Whether the expiry sweep at `now` times `r` out: it is pending and its
/// deadline is not after `now`.
pub open spec fn due(r: AskRecord, now: Seq<char>) -> bool {
    r.status == AskStatus::Pending && !lex_lt(now, r.timeout_at@)
}

/// The records after the sweep at `now`: every due ask timed out, the rest
/// unchanged.
pub open spec fn swept(records: Seq<AskRecord>, now: Seq<char>) -> Seq<AskRecord> {
    Seq::new(records.len(), |i: int| if due(records[i], now) { timed_out(records[i]) } else { records[i] })
}

/// The asks the sweep at `now` times out, in store order, as they are
/// after it.
pub open spec fn newly_expired(records: Seq<AskRecord>, now: Seq<char>) -> Seq<AskRecord>
    decreases records.len(),
{
    if records.len() == 0 {
        Seq::empty()
    } else {
        let rest = newly_expired(records.drop_last(), now);
        if due(records.last(), now) { rest.push(timed_out(records.last())) } else { rest }
    }
}

/// `a` and `b` hold the same ask: every field equal, the choices equal as
/// a sequence of labels.
pub open spec fn same_record(a: AskRecord, b: AskRecord) -> bool {
    &&& a.ask_id == b.ask_id
    &&& a.channel_id == b.channel_id
    &&& a.question == b.question
    &&& a.options@ == b.options@
    &&& a.allow_text == b.allow_text
    &&& a.status == b.status
    &&& a.kind == b.kind
    &&& a.value == b.value
    &&& a.answered_by == b.answered_by
    &&& a.created_at == b.created_at
    &&& a.timeout_at == b.timeout_at
    &&& a.answered_at == b.answered_at
}

fn copy_strings(v: &Vec<String>) -> (c: Vec<String>)
    ensures
        c@ == v@,
{
    let mut c: Vec<String> = Vec::new();
    let mut i: usize = 0;
    while i < v.len()
        invariant
            i <= v@.len(),
            c@ == v@.subrange(0, i as int),
        decreases v@.len() - i,
    {
        c.push(v[i].clone());
        i = i + 1;
        proof {
            assert(c@ =~= v@.subrange(0, i as int));
        }
    }
    proof {
        assert(c@ =~= v@);
    }
    c
}

fn copy_opt(o: &Option<String>) -> (c: Option<String>)
    ensures
        c == *o,
{
    match o {
        Some(s) => Some(s.clone()),
        None => None,
    }
}

fn timed_out_copy(r: &AskRecord) -> (c: AskRecord)
    ensures
        same_record(c, timed_out(*r)),
{
    AskRecord {
        ask_id: r.ask_id.clone(),
        channel_id: r.channel_id.clone(),
        question: r.question.clone(),
        options: copy_strings(&r.options),
        allow_text: r.allow_text,
        status: AskStatus::TimedOut,
        kind: copy_opt(&r.kind),
        value: copy_opt(&r.value),
        answered_by: copy_opt(&r.answered_by),
        created_at: r.created_at.clone(),
        timeout_at: r.timeout_at.clone(),
        answered_at: copy_opt(&r.answered_at),
    }
}

/// The expiry sweep: times out every pending ask whose deadline is not
/// after `now`, and answers those asks as they now stand.
pub fn expire_due(records: &mut Vec<AskRecord>, now: &str) -> (expired: Vec<AskRecord>)
    ensures
        final(records)@ == swept(old(records)@, now@),
        expired@.len() == newly_expired(old(records)@, now@).len(),
        forall|k: int| 0 <= k < expired@.len() ==> same_record(#[trigger] expired@[k], newly_expired(old(records)@, now@)[k]),
{
    let ghost start = records@;
    let mut expired: Vec<AskRecord> = Vec::new();
    let mut i: usize = 0;
    while i < records.len()
        invariant
            records@.len() == start.len(),
            i <= start.len(),
            forall|t: int| 0 <= t < i ==> #[trigger] records@[t] == swept(start, now@)[t],
            forall|t: int| i <= t < start.len() ==> #[trigger] records@[t] == start[t],
            expired@.len() == newly_expired(start.subrange(0, i as int), now@).len(),
            forall|k: int| 0 <= k < expired@.len()
                ==> same_record(#[trigger] expired@[k], newly_expired(start.subrange(0, i as int), now@)[k]),
        decreases start.len() - i,
    {
        proof {
            assert(start.subrange(0, i + 1).drop_last() =~= start.subrange(0, i as int));
            assert(start.subrange(0, i + 1).last() == start[i as int]);
        }
        if overdue(&records[i], now) {
            let out = timed_out_copy(&records[i]);
            let mut r = records.remove(i);
            r.status = AskStatus::TimedOut;
            records.insert(i, r);
            expired.push(out);
        }
        i = i + 1;
    }
    proof {
        assert(start.subrange(0, start.len() as int) =~= start);
        assert(records@ =~= swept(start, now@));
    }
    expired
}

// ---------------------------------------------------------------------------
// Laws of the store.
// ---------------------------------------------------------------------------

/// A resolved ask never changes: once answered or timed out, no answer,
/// timeout or expiry sweep alters it, and every such attempt loses.
pub proof fn lemma_resolved_ask_is_final(
    record: AskRecord,
    after: AskRecord,
    won: bool,
    kind: Seq<char>,
    value: Seq<char>,
    by: Seq<char>,
    at: Seq<char>,
    now: Seq<char>,
)
    requires
        record.status != AskStatus::Pending,
    ensures
        answer_step(record, after, won, kind, value, by, at) ==> after == record && !won,
        timeout_step(record, after, won) ==> after == record && !won,
        !due(record, now),
{
}

/// The first answer wins: of two answers to a pending ask, the first is
/// adopted, the second loses, and the ask keeps the first answer.
pub proof fn lemma_first_answer_wins(
    pending: AskRecord,
    first: AskRecord,
    won_first: bool,
    second: AskRecord,
    won_second: bool,
    kind1: Seq<char>,
    value1: Seq<char>,
    by1: Seq<char>,
    at1: Seq<char>,
    kind2: Seq<char>,
    value2: Seq<char>,
    by2: Seq<char>,
    at2: Seq<char>,
)
    requires
        pending.status == AskStatus::Pending,
        answer_step(pending, first, won_first, kind1, value1, by1, at1),
        answer_step(first, second, won_second, kind2, value2, by2, at2),
    ensures
        won_first,
        !won_second,
        second == first,
        answered_with(pending, second, kind1, value1, by1, at1),
{
}

/// An expired ask stays timed out: after the sweep times it out, later
/// answers, timeouts and sweeps all leave it as it is.
pub proof fn lemma_expired_ask_stays_timed_out(
    record: AskRecord,
    now: Seq<char>,
    after: AskRecord,
    won: bool,
    kind: Seq<char>,
    value: Seq<char>,
    by: Seq<char>,
    at: Seq<char>,
    later: Seq<char>,
)
    requires
        due(record, now),
    ensures
        answer_step(timed_out(record), after, won, kind, value, by, at) ==> after == timed_out(record) && !won,
        timeout_step(timed_out(record), after, won) ==> after == timed_out(record) && !won,
        !due(timed_out(record), later),
{
}

} // verus!
