//! The daemon's interaction rules: which gateway interactions are ours,
//! what each click or modal submit is answered with, and the bounded retry
//! of button-disable edits. The JSON shapes and the REST calls are the
//! application's; every decision is here.

use vstd::prelude::*;
use vstd::string::*;
use crate::discord::ask::{choice_id, custom_view, parse_custom, parse_custom_id, text_custom_id, text_id, AskRecord, CustomId};
use crate::discord::error::{plain_error, AppError, ErrorKind};
use crate::discord::http::{prefix_of, take_chars};

verus! {

/// Incoming interaction `type` of a button click.
pub const TYPE_MESSAGE_COMPONENT: u64 = 3;
/// Incoming interaction `type` of a modal submit.
pub const TYPE_MODAL_SUBMIT: u64 = 5;
/// Discord caps a modal title at 45 characters.
pub const MODAL_TITLE_MAX_CHARS: usize = 45;
/// A failed button-disable edit is attempted at most this many times.
pub const MAX_EDIT_ATTEMPTS: u32 = 3;

/// Where an interaction is dispatched.
#[derive(Debug, Clone, PartialEq, Eq)]
pub enum InteractionRoute {
    /// Not one of ours, or not a shape we produce.
    Ignore,
    /// A choice button was clicked.
    Choice { ask_id: String, index: usize },
    /// The free-text button was clicked: open the modal.
    OpenModal { ask_id: String },
    /// The free-text modal was submitted.
    ModalSubmit { ask_id: String },
}

/// The route of an interaction: anything without a type or a custom_id, or
/// whose custom_id is not ours, is ignored; ours must carry an id and a
/// token; then a click on a choice button, a click on the text button and
/// a text-modal submit each have their handler, and anything else is
/// ignored.
pub open spec fn route_verdict(
    kind: Option<u64>,
    custom_id: Option<Seq<char>>,
    has_id: bool,
    has_token: bool,
    r: Result<InteractionRoute, AppError>,
) -> bool {
    if kind is None || custom_id is None {
        r == Ok::<InteractionRoute, AppError>(InteractionRoute::Ignore)
    } else if parse_custom(custom_id->Some_0) is None {
        r == Ok::<InteractionRoute, AppError>(InteractionRoute::Ignore)
    } else if !has_id {
        r matches Err(e) && plain_error(ErrorKind::Internal, "interaction payload missing id"@, e)
    } else if !has_token {
        r matches Err(e) && plain_error(ErrorKind::Internal, "interaction payload missing token"@, e)
    } else {
        let (ask_id, choice) = parse_custom(custom_id->Some_0)->Some_0;
        let k = kind->Some_0;
        if k == TYPE_MESSAGE_COMPONENT && choice is Some {
            r matches Ok(InteractionRoute::Choice { ask_id: a, index }) && a@ == ask_id && index as nat == choice->Some_0
        } else if k == TYPE_MESSAGE_COMPONENT {
            r matches Ok(InteractionRoute::OpenModal { ask_id: a }) && a@ == ask_id
        } else if k == TYPE_MODAL_SUBMIT && choice is None {
            r matches Ok(InteractionRoute::ModalSubmit { ask_id: a }) && a@ == ask_id
        } else {
            r == Ok::<InteractionRoute, AppError>(InteractionRoute::Ignore)
        }
    }
}

pub fn route_interaction(
    kind: Option<u64>,
    custom_id: Option<&str>,
    interaction_id: Option<&str>,
    token: Option<&str>,
) -> (r: Result<InteractionRoute, AppError>)
    ensures
        route_verdict(
            kind,
            match custom_id { Some(c) => Some(c@), None => None },
            interaction_id is Some,
            token is Some,
            r,
        ),
{
    let (k, c) = match (kind, custom_id) {
        (Some(k), Some(c)) => (k, c),
        _ => return Ok(InteractionRoute::Ignore),
    };
    let parsed = match parse_custom_id(c) {
        Some(p) => p,
        None => return Ok(InteractionRoute::Ignore),
    };
    if interaction_id.is_none() {
        return Err(AppError::new(ErrorKind::Internal, "interaction payload missing id"));
    }
    if token.is_none() {
        return Err(AppError::new(ErrorKind::Internal, "interaction payload missing token"));
    }
    match parsed {
        CustomId::Choice { ask_id, index } => {
            if k == TYPE_MESSAGE_COMPONENT {
                Ok(InteractionRoute::Choice { ask_id, index })
            } else {
                Ok(InteractionRoute::Ignore)
            }
        },
        CustomId::Text { ask_id } => {
            if k == TYPE_MESSAGE_COMPONENT {
                Ok(InteractionRoute::OpenModal { ask_id })
            } else if k == TYPE_MODAL_SUBMIT {
                Ok(InteractionRoute::ModalSubmit { ask_id })
            } else {
                Ok(InteractionRoute::Ignore)
            }
        },
    }
}

/// The interaction response to send back.
#[derive(Debug, Clone, PartialEq, Eq)]
pub enum InteractionReply {
    /// A notice only the clicker sees (every "not adopted" outcome).
    Ephemeral(String),
    /// Update the ask message with this outcome and drop its buttons.
    Resolved(String),
    /// Open the free-text modal.
    Modal { custom_id: String, title: String },
}

pub open spec fn unknown_ask_text() -> Seq<char> {
    "존재하지 않는 질문입니다."@
}

pub open spec fn unknown_option_text() -> Seq<char> {
    "알 수 없는 선택지입니다."@
}

pub open spec fn closed_text() -> Seq<char> {
    "이미 마감된 질문입니다."@
}

pub open spec fn text_not_allowed_text() -> Seq<char> {
    "텍스트 응답이 허용되지 않는 질문입니다."@
}

/// What a choice click leads to before any answer is recorded.
#[derive(Debug, Clone, PartialEq, Eq)]
pub enum ChoiceStep {
    /// Answer the click without touching the ask.
    Reply(InteractionReply),
    /// Try to record this label as the ask's answer.
    TryAnswer(String),
}

/// A click on choice `index`: an unknown ask and an out-of-range choice are
/// answered ephemerally; otherwise the chosen label is offered as the
/// answer.
pub fn choice_step(record: Option<&AskRecord>, index: usize) -> (r: ChoiceStep)
    ensures
        match record {
            None => r matches ChoiceStep::Reply(InteractionReply::Ephemeral(t)) && t@ == unknown_ask_text(),
            Some(rec) => if index < rec.options@.len() {
                r matches ChoiceStep::TryAnswer(label) && label@ == rec.options@[index as int]@
            } else {
                r matches ChoiceStep::Reply(InteractionReply::Ephemeral(t)) && t@ == unknown_option_text()
            },
        },
{
    match record {
        None => ChoiceStep::Reply(InteractionReply::Ephemeral(String::from_str("존재하지 않는 질문입니다."))),
        Some(rec) => {
            if index < rec.options.len() {
                ChoiceStep::TryAnswer(rec.options[index].clone())
            } else {
                ChoiceStep::Reply(InteractionReply::Ephemeral(String::from_str("알 수 없는 선택지입니다.")))
            }
        },
    }
}

/// After trying to record an answer: the winner resolves the message with
/// `outcome`; a loser (the ask was already closed) is told so ephemerally.
pub fn answer_reply(won: bool, outcome: String) -> (r: InteractionReply)
    ensures
        won ==> r == InteractionReply::Resolved(outcome),
        !won ==> (r matches InteractionReply::Ephemeral(t) && t@ == closed_text()),
{
    if won {
        InteractionReply::Resolved(outcome)
    } else {
        InteractionReply::Ephemeral(String::from_str("이미 마감된 질문입니다."))
    }
}

/// The resolved text for a choice answer.
pub fn chosen_text(label: &str) -> (r: String)
    ensures
        r@ == "선택됨: "@ + label@,
{
    let mut r = String::from_str("선택됨: ");
    r.append(label);
    r
}

/// The resolved text for a free-text answer.
pub fn answered_text(value: &str) -> (r: String)
    ensures
        r@ == "답변: "@ + value@,
{
    let mut r = String::from_str("답변: ");
    r.append(value);
    r
}

/// A click on the free-text button: an unknown ask, or one that does not
/// allow free text (the record, not the client's buttons, decides), is
/// answered ephemerally; otherwise the modal opens, titled with the first
/// 45 characters of the question and carrying the ask's text custom_id.
pub fn open_modal_reply(record: Option<&AskRecord>, ask_id: &str) -> (r: InteractionReply)
    ensures
        match record {
            None => r matches InteractionReply::Ephemeral(t) && t@ == unknown_ask_text(),
            Some(rec) => if !rec.allow_text {
                r matches InteractionReply::Ephemeral(t) && t@ == text_not_allowed_text()
            } else {
                r matches InteractionReply::Modal { custom_id, title } && custom_id@ == text_id(ask_id@)
                    && title@ == prefix_of(rec.question@, MODAL_TITLE_MAX_CHARS as nat)
            },
        },
{
    match record {
        None => InteractionReply::Ephemeral(String::from_str("존재하지 않는 질문입니다.")),
        Some(rec) => {
            if !rec.allow_text {
                InteractionReply::Ephemeral(String::from_str("텍스트 응답이 허용되지 않는 질문입니다."))
            } else {
                InteractionReply::Modal {
                    custom_id: text_custom_id(ask_id),
                    title: take_chars(rec.question.as_str(), MODAL_TITLE_MAX_CHARS),
                }
            }
        },
    }
}

/// A modal submit: an unknown ask, or one that does not allow free text, is
/// answered ephemerally (`Some`); otherwise the submitted text is offered as
/// the answer (`None`).
pub fn modal_submit_check(record: Option<&AskRecord>) -> (r: Option<InteractionReply>)
    ensures
        match record {
            None => r matches Some(InteractionReply::Ephemeral(t)) && t@ == unknown_ask_text(),
            Some(rec) => if !rec.allow_text {
                r matches Some(InteractionReply::Ephemeral(t)) && t@ == text_not_allowed_text()
            } else {
                r is None
            },
        },
{
    match record {
        None => Some(InteractionReply::Ephemeral(String::from_str("존재하지 않는 질문입니다."))),
        Some(rec) => {
            if !rec.allow_text {
                Some(InteractionReply::Ephemeral(String::from_str("텍스트 응답이 허용되지 않는 질문입니다.")))
            } else {
                None
            }
        },
    }
}

/// One message whose button-disable edit is due (again).
#[derive(Debug, Clone, PartialEq, Eq)]
pub struct PendingEdit {
    pub channel_id: String,
    pub ask_id: String,
    /// Attempts already made.
    pub attempts: u32,
}

/// Button-disable edits that failed transiently, carried to the next expiry
/// tick. The daemon owns one for its lifetime.
#[derive(Debug, Default)]
pub struct ExpireRetryQueue {
    pub pending: Vec<PendingEdit>,
}

impl ExpireRetryQueue {
    pub fn new() -> (q: ExpireRetryQueue)
        ensures
            q.pending@.len() == 0,
    {
        ExpireRetryQueue { pending: Vec::new() }
    }
}

/// How one button-disable edit went.
#[derive(Debug, Clone, Copy, PartialEq, Eq, Structural)]
pub enum EditOutcome {
    Done,
    /// The message is gone (404): no retry can help.
    MessageDeleted,
    /// Any other failure (rate limit, network, 5xx): worth retrying.
    Failed,
}

/// Classifies what the message edit came back with: a 404 means the
/// message was deleted, any other error is worth another try.
pub fn edit_outcome(result: &Result<(), AppError>) -> (outcome: EditOutcome)
    ensures
        result is Ok ==> outcome == EditOutcome::Done,
        result matches Err(e) ==> (outcome == (if e.http_status == Some(404u16) {
            EditOutcome::MessageDeleted
        } else {
            EditOutcome::Failed
        })),
{
    match result {
        Ok(()) => EditOutcome::Done,
        Err(e) => match e.http_status {
            Some(status) => if status == 404 { EditOutcome::MessageDeleted } else { EditOutcome::Failed },
            None => EditOutcome::Failed,
        },
    }
}

/// This tick's edits: every newly expired ask (no attempt made yet), then
/// everything the queue carried over, which leaves the queue empty.
pub fn edit_targets(expired: &Vec<AskRecord>, queue: &mut ExpireRetryQueue) -> (targets: Vec<PendingEdit>)
    ensures
        targets@.len() == expired@.len() + old(queue).pending@.len(),
        forall|i: int| 0 <= i < expired@.len() ==> {
            &&& #[trigger] targets@[i].ask_id@ == expired@[i].ask_id@
            &&& targets@[i].channel_id@ == expired@[i].channel_id@
            &&& targets@[i].attempts == 0
        },
        forall|i: int| 0 <= i < old(queue).pending@.len() ==> #[trigger] targets@[expired@.len() + i] == old(queue).pending@[i],
        final(queue).pending@.len() == 0,
{
    let mut targets: Vec<PendingEdit> = Vec::new();
    let mut i: usize = 0;
    while i < expired.len()
        invariant
            i <= expired@.len(),
            targets@.len() == i,
            forall|t: int| 0 <= t < i ==> {
                &&& #[trigger] targets@[t].ask_id@ == expired@[t].ask_id@
                &&& targets@[t].channel_id@ == expired@[t].channel_id@
                &&& targets@[t].attempts == 0
            },
        decreases expired@.len() - i,
    {
        targets.push(PendingEdit {
            channel_id: expired[i].channel_id.clone(),
            ask_id: expired[i].ask_id.clone(),
            attempts: 0,
        });
        i = i + 1;
    }
    targets.append(&mut queue.pending);
    targets
}

/// What is left to retry after this tick's edits: a failed edit is kept
/// with one more attempt counted, unless that reaches the attempt budget; a
/// done edit and one whose message was deleted are dropped.
pub open spec fn still_pending(targets: Seq<PendingEdit>, outcomes: Seq<EditOutcome>) -> Seq<PendingEdit>
    decreases targets.len(),
{
    if targets.len() == 0 || outcomes.len() == 0 {
        Seq::empty()
    } else {
        let rest = still_pending(targets.drop_last(), outcomes.drop_last());
        let t = targets.last();
        if outcomes.last() == EditOutcome::Failed && t.attempts + 1 < MAX_EDIT_ATTEMPTS {
            rest.push(PendingEdit { channel_id: t.channel_id, ask_id: t.ask_id, attempts: (t.attempts + 1) as u32 })
        } else {
            rest
        }
    }
}

/// Settles this tick's edits into the queue for the next tick.
pub fn requeue_failed_edits(targets: Vec<PendingEdit>, outcomes: &Vec<EditOutcome>, queue: &mut ExpireRetryQueue)
    requires
        targets@.len() == outcomes@.len(),
        forall|i: int| 0 <= i < targets@.len() ==> #[trigger] targets@[i].attempts < MAX_EDIT_ATTEMPTS,
    ensures
        final(queue).pending@ == still_pending(targets@, outcomes@),
        forall|i: int| 0 <= i < final(queue).pending@.len() ==> #[trigger] final(queue).pending@[i].attempts < MAX_EDIT_ATTEMPTS,
{
    let n = targets.len();
    let mut kept: Vec<PendingEdit> = Vec::new();
    let ghost all = targets@;
    let mut rest = targets;
    let mut i: usize = 0;
    while i < n
        invariant
            n == all.len(),
            n == outcomes@.len(),
            i <= n,
            rest@ == all.subrange(i as int, n as int),
            kept@ == still_pending(all.subrange(0, i as int), outcomes@.subrange(0, i as int)),
            forall|t: int| 0 <= t < all.len() ==> #[trigger] all[t].attempts < MAX_EDIT_ATTEMPTS,
            forall|t: int| 0 <= t < kept@.len() ==> #[trigger] kept@[t].attempts < MAX_EDIT_ATTEMPTS,
        decreases n - i,
    {
        let target = rest.remove(0);
        let outcome = outcomes[i];
        proof {
            assert(all.subrange(0, i + 1).drop_last() =~= all.subrange(0, i as int));
            assert(outcomes@.subrange(0, i + 1).drop_last() =~= outcomes@.subrange(0, i as int));
            assert(rest@ =~= all.subrange(i + 1, n as int));
        }
        match outcome {
            EditOutcome::Failed => {
                let attempts = target.attempts + 1;
                if attempts < MAX_EDIT_ATTEMPTS {
                    kept.push(PendingEdit { channel_id: target.channel_id, ask_id: target.ask_id, attempts });
                }
            },
            _ => {},
        }
        i = i + 1;
    }
    proof {
        assert(all.subrange(0, n as int) =~= all);
        assert(outcomes@.subrange(0, n as int) =~= outcomes@);
    }
    queue.pending = kept;
}


// ---------------------------------------------------------------------------
// No ask's message is edited more than the attempt budget allows.
// ---------------------------------------------------------------------------

/// How many of `edits` are for `ask`.
pub open spec fn edits_for(edits: Seq<PendingEdit>, ask: Seq<char>) -> nat
    decreases edits.len(),
{
    if edits.len() == 0 {
        0
    } else {
        edits_for(edits.drop_last(), ask) + (if edits.last().ask_id@ == ask { 1nat } else { 0nat })
    }
}

/// The attempts still allowed to the edits for `ask` in `edits`: each may
/// be tried until it has been tried `MAX_EDIT_ATTEMPTS` times.
pub open spec fn attempts_left(edits: Seq<PendingEdit>, ask: Seq<char>) -> int
    decreases edits.len(),
{
    if edits.len() == 0 {
        0
    } else {
        attempts_left(edits.drop_last(), ask) + (if edits.last().ask_id@ == ask {
            MAX_EDIT_ATTEMPTS - edits.last().attempts
        } else {
            0
        })
    }
}

/// Every edit for `ask` in `edits` is still under the attempt budget.
pub open spec fn under_budget(edits: Seq<PendingEdit>, ask: Seq<char>) -> bool {
    forall|i: int| 0 <= i < edits.len() && (#[trigger] edits[i]).ask_id@ == ask ==> edits[i].attempts < MAX_EDIT_ATTEMPTS
}

/// A run of expiry ticks, each given as the edits for the asks newly
/// expired on it (the first part of [`edit_targets`]) and the outcomes of
/// that tick's edits. Each tick edits its new asks and then the carried
/// queue, and carries [`still_pending`] of them to the next tick, as
/// [`edit_targets`] and [`requeue_failed_edits`] do. This is how many of all
/// those edits are for `ask`.
pub open spec fn edits_over_ticks(
    queue: Seq<PendingEdit>,
    ticks: Seq<(Seq<PendingEdit>, Seq<EditOutcome>)>,
    ask: Seq<char>,
) -> nat
    decreases ticks.len(),
{
    if ticks.len() == 0 {
        0
    } else {
        let targets = ticks[0].0 + queue;
        edits_for(targets, ask) + edits_over_ticks(still_pending(targets, ticks[0].1), ticks.drop_first(), ask)
    }
}

/// How many times `ask` newly expires over the run of ticks.
pub open spec fn expiries_over_ticks(ticks: Seq<(Seq<PendingEdit>, Seq<EditOutcome>)>, ask: Seq<char>) -> nat
    decreases ticks.len(),
{
    if ticks.len() == 0 {
        0
    } else {
        edits_for(ticks[0].0, ask) + expiries_over_ticks(ticks.drop_first(), ask)
    }
}

proof fn lemma_edits_split(a: Seq<PendingEdit>, b: Seq<PendingEdit>, ask: Seq<char>)
    ensures
        edits_for(a + b, ask) == edits_for(a, ask) + edits_for(b, ask),
        attempts_left(a + b, ask) == attempts_left(a, ask) + attempts_left(b, ask),
    decreases b.len(),
{
    if b.len() == 0 {
        assert(a + b =~= a);
    } else {
        assert((a + b).drop_last() =~= a + b.drop_last());
        lemma_edits_split(a, b.drop_last(), ask);
    }
}

/// Edits not yet tried have the whole budget left.
proof fn lemma_fresh_attempts_left(fresh: Seq<PendingEdit>, ask: Seq<char>)
    requires
        forall|i: int| 0 <= i < fresh.len() ==> (#[trigger] fresh[i]).attempts == 0,
    ensures
        attempts_left(fresh, ask) == MAX_EDIT_ATTEMPTS * edits_for(fresh, ask),
    decreases fresh.len(),
{
    if fresh.len() > 0 {
        let rest = fresh.drop_last();
        assert(fresh.last() == fresh[fresh.len() - 1]);
        assert forall|i: int| 0 <= i < rest.len() implies (#[trigger] rest[i]).attempts == 0 by {
            assert(rest[i] == fresh[i]);
        }
        lemma_fresh_attempts_left(rest, ask);
    }
}

/// With no edit for `ask`, nothing is left for it.
proof fn lemma_no_edits_for(edits: Seq<PendingEdit>, ask: Seq<char>)
    requires
        edits_for(edits, ask) == 0,
    ensures
        attempts_left(edits, ask) == 0,
        under_budget(edits, ask),
    decreases edits.len(),
{
    if edits.len() > 0 {
        let rest = edits.drop_last();
        lemma_no_edits_for(rest, ask);
        assert forall|i: int| 0 <= i < edits.len() && (#[trigger] edits[i]).ask_id@ == ask implies edits[i].attempts < MAX_EDIT_ATTEMPTS by {
            if i < rest.len() {
                assert(rest[i] == edits[i]);
            } else {
                assert(edits[i] == edits.last());
            }
        }
    }
}

/// Each edit costs at least one of the attempts left.
proof fn lemma_edits_within_attempts_left(edits: Seq<PendingEdit>, ask: Seq<char>)
    requires
        under_budget(edits, ask),
    ensures
        edits_for(edits, ask) <= attempts_left(edits, ask),
    decreases edits.len(),
{
    if edits.len() > 0 {
        let rest = edits.drop_last();
        assert(edits.last() == edits[edits.len() - 1]);
        assert forall|i: int| 0 <= i < rest.len() && (#[trigger] rest[i]).ask_id@ == ask implies rest[i].attempts < MAX_EDIT_ATTEMPTS by {
            assert(rest[i] == edits[i]);
        }
        lemma_edits_within_attempts_left(rest, ask);
    }
}

/// One tick: the edits made for `ask` plus what is left to the carried
/// queue never exceed what was left before the tick, and the carried queue
/// stays under budget.
proof fn lemma_one_tick(targets: Seq<PendingEdit>, outcomes: Seq<EditOutcome>, ask: Seq<char>)
    requires
        under_budget(targets, ask),
    ensures
        edits_for(targets, ask) + attempts_left(still_pending(targets, outcomes), ask) <= attempts_left(targets, ask),
        under_budget(still_pending(targets, outcomes), ask),
    decreases targets.len(),
{
    let next = still_pending(targets, outcomes);
    if targets.len() == 0 || outcomes.len() == 0 {
        lemma_edits_within_attempts_left(targets, ask);
    } else {
        let prior = targets.drop_last();
        let t = targets.last();
        assert(t == targets[targets.len() - 1]);
        assert forall|i: int| 0 <= i < prior.len() && (#[trigger] prior[i]).ask_id@ == ask implies prior[i].attempts < MAX_EDIT_ATTEMPTS by {
            assert(prior[i] == targets[i]);
        }
        lemma_one_tick(prior, outcomes.drop_last(), ask);
        let rest = still_pending(prior, outcomes.drop_last());
        if outcomes.last() == EditOutcome::Failed && t.attempts + 1 < MAX_EDIT_ATTEMPTS {
            let kept = PendingEdit { channel_id: t.channel_id, ask_id: t.ask_id, attempts: (t.attempts + 1) as u32 };
            assert(next == rest.push(kept));
            assert(next.drop_last() =~= rest);
            assert(next.last() == kept);
            assert forall|i: int| 0 <= i < next.len() && (#[trigger] next[i]).ask_id@ == ask implies next[i].attempts < MAX_EDIT_ATTEMPTS by {
                if i < rest.len() {
                    assert(next[i] == rest[i]);
                } else {
                    assert(next[i] == kept);
                }
            }
        }
    }
}

/// The run-of-ticks bound, from any queue that is under budget.
proof fn lemma_edits_over_ticks_bounded(
    queue: Seq<PendingEdit>,
    ticks: Seq<(Seq<PendingEdit>, Seq<EditOutcome>)>,
    ask: Seq<char>,
)
    requires
        under_budget(queue, ask),
        forall|t: int, i: int| 0 <= t < ticks.len() && 0 <= i < ticks[t].0.len() ==> (#[trigger] ticks[t].0[i]).attempts == 0,
    ensures
        edits_over_ticks(queue, ticks, ask) <= attempts_left(queue, ask) + MAX_EDIT_ATTEMPTS * expiries_over_ticks(ticks, ask),
    decreases ticks.len(),
{
    if ticks.len() > 0 {
        let fresh = ticks[0].0;
        let targets = fresh + queue;
        assert forall|i: int| 0 <= i < fresh.len() implies (#[trigger] fresh[i]).attempts == 0 by {
            assert(ticks[0].0[i] == fresh[i]);
        }
        assert forall|i: int| 0 <= i < targets.len() && (#[trigger] targets[i]).ask_id@ == ask implies targets[i].attempts < MAX_EDIT_ATTEMPTS by {
            if i < fresh.len() {
                assert(targets[i] == fresh[i]);
            } else {
                assert(targets[i] == queue[i - fresh.len()]);
            }
        }
        lemma_edits_split(fresh, queue, ask);
        lemma_fresh_attempts_left(fresh, ask);
        lemma_one_tick(targets, ticks[0].1, ask);
        let later = ticks.drop_first();
        assert forall|t: int, i: int| 0 <= t < later.len() && 0 <= i < later[t].0.len() implies (#[trigger] later[t].0[i]).attempts == 0 by {
            assert(later[t] == ticks[t + 1]);
        }
        lemma_edits_over_ticks_bounded(still_pending(targets, ticks[0].1), later, ask);
        assert(MAX_EDIT_ATTEMPTS * expiries_over_ticks(ticks, ask)
            == MAX_EDIT_ATTEMPTS * edits_for(fresh, ask) + MAX_EDIT_ATTEMPTS * expiries_over_ticks(later, ask)) by (nonlinear_arith)
            requires
                expiries_over_ticks(ticks, ask) == edits_for(fresh, ask) + expiries_over_ticks(later, ask),
        ;
    } else {
        lemma_edits_within_attempts_left(queue, ask);
    }
}

/// An ask's message is edited at most `MAX_EDIT_ATTEMPTS` times in all: if
/// the ask newly expires on at most one tick and the queue starts with no
/// edit for it, then over any run of ticks, whatever each edit's outcome,
/// the ticks make at most three edits for it. A deleted message or a
/// success drops the edit; a failure carries it only while it has
/// attempts left.
pub proof fn lemma_ask_edited_at_most_max_attempts(
    queue: Seq<PendingEdit>,
    ticks: Seq<(Seq<PendingEdit>, Seq<EditOutcome>)>,
    ask: Seq<char>,
)
    requires
        edits_for(queue, ask) == 0,
        expiries_over_ticks(ticks, ask) <= 1,
        forall|t: int, i: int| 0 <= t < ticks.len() && 0 <= i < ticks[t].0.len() ==> (#[trigger] ticks[t].0[i]).attempts == 0,
    ensures
        edits_over_ticks(queue, ticks, ask) <= MAX_EDIT_ATTEMPTS,
{
    lemma_no_edits_for(queue, ask);
    lemma_edits_over_ticks_bounded(queue, ticks, ask);
}

} // verus!
