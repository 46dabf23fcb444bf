//! The board's rows and the rules that move them: the composite
//! state/project/session invariant every row satisfies, each transition a
//! command performs on a row, the order in which claims hand out backlog
//! items, and how ids are minted. The database only stores what these
//! functions decide.

use vstd::prelude::*;
use crate::kanban::cli::{priority_rank, priority_token, state_token, ItemState, Priority};
use crate::kanban::error::{plain_error, AppError, ErrorKind};
use crate::text::{decimal, lemma_lex_irreflexive, lemma_lex_transitive, lex_lt, str_eq, str_lt, u64_to_padded_decimal, zero_pad};

verus! {

// ---------------------------------------------------------------------------
// Rows.
// ---------------------------------------------------------------------------

/// A registered project row.
#[derive(Debug, Clone, PartialEq, Eq)]
pub struct ProjectRecord {
    pub name: String,
    pub description: String,
    pub created_at: String,
}

/// An inbound issue as the caller pushes it. State is always `inbox` and the
/// id is minted by the board, so neither is part of the input.
#[derive(Debug, Clone, Copy, PartialEq, Eq)]
pub struct NewItem<'a> {
    pub source: &'a str,
    pub external_id: &'a str,
    pub title: &'a str,
    pub body: &'a str,
}

/// A persisted `items` row.
#[derive(Debug, Clone, PartialEq, Eq)]
pub struct ItemRecord {
    pub id: String,
    pub source: String,
    pub external_id: String,
    pub title: String,
    pub body: String,
    pub state: ItemState,
    pub project: Option<String>,
    pub priority: Priority,
    pub session_id: Option<String>,
    pub agent: Option<String>,
    pub claimed_at: Option<String>,
    pub created_at: String,
    pub updated_at: String,
}

/// Both ends of a state change: the row as it was read and the row as it
/// was written.
#[derive(Debug, Clone, PartialEq, Eq)]
pub struct Transition {
    pub before: ItemRecord,
    pub after: ItemRecord,
}

/// The composite invariant every stored row satisfies: unclassified items
/// have neither project nor claim, a backlog item has a project and no
/// claim, a running item has both, and a done item has a project (its claim
/// kept when an agent finished it, absent when a human did).
pub open spec fn row_ok(item: ItemRecord) -> bool {
    match item.state {
        ItemState::Inbox | ItemState::Unmatched => item.project is None && item.session_id is None,
        ItemState::Backlog => item.project is Some && item.session_id is None,
        ItemState::Running => item.project is Some && item.session_id is Some,
        ItemState::Done => item.project is Some,
    }
}

/// The columns no transition ever changes.
pub open spec fn same_identity(a: ItemRecord, b: ItemRecord) -> bool {
    &&& a.id == b.id
    &&& a.source == b.source
    &&& a.external_id == b.external_id
    &&& a.title == b.title
    &&& a.body == b.body
    &&& a.created_at == b.created_at
}

/// The claim columns of `a` and `b` agree.
pub open spec fn same_claim(a: ItemRecord, b: ItemRecord) -> bool {
    a.session_id == b.session_id && a.agent == b.agent && a.claimed_at == b.claimed_at
}

/// `item` holds no claim.
pub open spec fn unclaimed(item: ItemRecord) -> bool {
    item.session_id is None && item.agent is None && item.claimed_at is None
}

fn copy_text(s: &String) -> (r: String)
    ensures
        r == *s,
{
    s.clone()
}

fn copy_opt(o: &Option<String>) -> (r: Option<String>)
    ensures
        r == *o,
{
    match o {
        Some(s) => Some(s.clone()),
        None => None,
    }
}

fn owned(s: &str) -> (r: String)
    ensures
        r@ == s@,
{
    s.to_owned()
}

// ---------------------------------------------------------------------------
// Tokens.
// ---------------------------------------------------------------------------

/// The state whose stored token is `raw`, if any.
pub open spec fn state_of_token(raw: Seq<char>) -> Option<ItemState> {
    if raw == "inbox"@ {
        Some(ItemState::Inbox)
    } else if raw == "unmatched"@ {
        Some(ItemState::Unmatched)
    } else if raw == "backlog"@ {
        Some(ItemState::Backlog)
    } else if raw == "running"@ {
        Some(ItemState::Running)
    } else if raw == "done"@ {
        Some(ItemState::Done)
    } else {
        None
    }
}

/// The priority whose stored token is `raw`, if any.
pub open spec fn priority_of_token(raw: Seq<char>) -> Option<Priority> {
    if raw == "P0"@ {
        Some(Priority::P0)
    } else if raw == "P1"@ {
        Some(Priority::P1)
    } else if raw == "P2"@ {
        Some(Priority::P2)
    } else if raw == "P3"@ {
        Some(Priority::P3)
    } else {
        None
    }
}

pub fn state_from_token(raw: &str) -> (r: Option<ItemState>)
    ensures
        r == state_of_token(raw@),
{
    if str_eq(raw, "inbox") {
        Some(ItemState::Inbox)
    } else if str_eq(raw, "unmatched") {
        Some(ItemState::Unmatched)
    } else if str_eq(raw, "backlog") {
        Some(ItemState::Backlog)
    } else if str_eq(raw, "running") {
        Some(ItemState::Running)
    } else if str_eq(raw, "done") {
        Some(ItemState::Done)
    } else {
        None
    }
}

pub fn priority_from_token(raw: &str) -> (r: Option<Priority>)
    ensures
        r == priority_of_token(raw@),
{
    if str_eq(raw, "P0") {
        Some(Priority::P0)
    } else if str_eq(raw, "P1") {
        Some(Priority::P1)
    } else if str_eq(raw, "P2") {
        Some(Priority::P2)
    } else if str_eq(raw, "P3") {
        Some(Priority::P3)
    } else {
        None
    }
}

pub open spec fn unknown_state_message(raw: Seq<char>) -> Seq<char> {
    "unknown state "@ + raw + "; expected inbox|unmatched|backlog|running|done"@
}

pub open spec fn unknown_priority_message(raw: Seq<char>) -> Seq<char> {
    "unknown priority "@ + raw + "; expected P0|P1|P2|P3"@
}

/// Rejects an unknown state token as a usage error before it reaches the
/// store.
pub fn parse_state(raw: &str) -> (r: Result<ItemState, AppError>)
    ensures
        match state_of_token(raw@) {
            Some(s) => r == Ok::<ItemState, AppError>(s),
            None => r matches Err(e) && plain_error(ErrorKind::Usage, unknown_state_message(raw@), e),
        },
{
    match state_from_token(raw) {
        Some(s) => Ok(s),
        None => {
            let mut msg = String::new();
            msg.append("unknown state ");
            msg.append(raw);
            msg.append("; expected inbox|unmatched|backlog|running|done");
            Err(AppError::with_message(ErrorKind::Usage, msg))
        },
    }
}

/// Rejects an unknown priority token as a usage error before it reaches the
/// store.
pub fn parse_priority(raw: &str) -> (r: Result<Priority, AppError>)
    ensures
        match priority_of_token(raw@) {
            Some(p) => r == Ok::<Priority, AppError>(p),
            None => r matches Err(e) && plain_error(ErrorKind::Usage, unknown_priority_message(raw@), e),
        },
{
    match priority_from_token(raw) {
        Some(p) => Ok(p),
        None => {
            let mut msg = String::new();
            msg.append("unknown priority ");
            msg.append(raw);
            msg.append("; expected P0|P1|P2|P3");
            Err(AppError::with_message(ErrorKind::Usage, msg))
        },
    }
}

// ---------------------------------------------------------------------------
// Ids.
// ---------------------------------------------------------------------------

/// `n` with at least `width` characters, zero-padded after the sign, as
/// `format!("{n:0width$}")` renders an integer.
pub open spec fn signed_zero_pad(n: int, width: nat) -> Seq<char> {
    if n >= 0 {
        zero_pad(decimal(n as nat), width)
    } else {
        "-"@ + zero_pad(decimal((-n) as nat), (width - 1) as nat)
    }
}

/// The id of the item with sequence number `sequence`: `itm-` and the
/// number zero-padded to six places.
pub open spec fn item_id_text(sequence: int) -> Seq<char> {
    "itm-"@ + signed_zero_pad(sequence, 6)
}

/// An item id: `itm-` plus its zero-padded sequence number.
pub fn format_item_id(sequence: i64) -> (r: String)
    ensures
        r@ == item_id_text(sequence as int),
{
    let mut out = String::new();
    out.append("itm-");
    if sequence >= 0 {
        let digits = u64_to_padded_decimal(sequence as u64, 6);
        out.append(digits.as_str());
    } else {
        let magnitude = (-(sequence + 1)) as u64 + 1;
        out.append("-");
        let digits = u64_to_padded_decimal(magnitude, 5);
        out.append(digits.as_str());
    }
    out
}

/// The id the next intake receives, given the highest sequence number on the
/// board (`None` for an empty board): one past it.
pub fn next_item_id(highest: Option<i64>) -> (r: String)
    requires
        highest != Some(i64::MAX),
    ensures
        r@ == item_id_text(match highest { Some(h) => h + 1, None => 1 }),
{
    let last = match highest {
        Some(h) => h,
        None => 0,
    };
    format_item_id(last + 1)
}

// ---------------------------------------------------------------------------
// Transitions.
// ---------------------------------------------------------------------------

/// A copy of `before` with the mutable columns replaced.
fn rewrite(
    before: &ItemRecord,
    state: ItemState,
    project: Option<String>,
    priority: Priority,
    session_id: Option<String>,
    agent: Option<String>,
    claimed_at: Option<String>,
    now: &str,
) -> (r: ItemRecord)
    ensures
        same_identity(*before, r),
        r.state == state,
        r.project == project,
        r.priority == priority,
        r.session_id == session_id,
        r.agent == agent,
        r.claimed_at == claimed_at,
        r.updated_at@ == now@,
{
    ItemRecord {
        id: copy_text(&before.id),
        source: copy_text(&before.source),
        external_id: copy_text(&before.external_id),
        title: copy_text(&before.title),
        body: copy_text(&before.body),
        state,
        project,
        priority,
        session_id,
        agent,
        claimed_at,
        created_at: copy_text(&before.created_at),
        updated_at: owned(now),
    }
}

/// The row a fresh intake writes: `inbox`, default priority `P2`, no project
/// and no claim, created and updated now.
pub fn new_item(id: String, item: &NewItem, now: &str) -> (r: ItemRecord)
    ensures
        r.id == id,
        r.source@ == item.source@,
        r.external_id@ == item.external_id@,
        r.title@ == item.title@,
        r.body@ == item.body@,
        r.state == ItemState::Inbox,
        r.priority == Priority::P2,
        r.project is None,
        unclaimed(r),
        r.created_at@ == now@,
        r.updated_at@ == now@,
        row_ok(r),
{
    ItemRecord {
        id,
        source: owned(item.source),
        external_id: owned(item.external_id),
        title: owned(item.title),
        body: owned(item.body),
        state: ItemState::Inbox,
        project: None,
        priority: Priority::P2,
        session_id: None,
        agent: None,
        claimed_at: None,
        created_at: owned(now),
        updated_at: owned(now),
    }
}

fn state_hint(id: &String, state: ItemState, tail: &str) -> (r: String)
    ensures
        r@ == "item "@ + id@ + " is "@ + state_token(state) + tail@,
{
    let mut msg = String::new();
    msg.append("item ");
    msg.append(id.as_str());
    msg.append(" is ");
    msg.append(state.as_str());
    msg.append(tail);
    msg
}

pub open spec fn not_running_message(id: Seq<char>, state: ItemState, tail: Seq<char>) -> Seq<char> {
    "item "@ + id + " is "@ + state_token(state) + tail
}

pub open spec fn complete_refusal(id: Seq<char>, state: ItemState) -> Seq<char> {
    not_running_message(id, state, ", not running; only a claimed item can be completed"@)
}

pub open spec fn release_refusal(id: Seq<char>, state: ItemState) -> Seq<char> {
    not_running_message(id, state, ", not running; there is no claim to release"@)
}

pub open spec fn assign_refusal(id: Seq<char>, state: ItemState) -> Seq<char> {
    not_running_message(id, state, "; only an inbox or unmatched item can be assigned"@)
}

/// `a` is `b` completed at `now`: `done`, with project, priority and claim
/// kept.
pub open spec fn completed(b: ItemRecord, a: ItemRecord, now: Seq<char>) -> bool {
    &&& same_identity(b, a)
    &&& a.state == ItemState::Done
    &&& a.project == b.project
    &&& a.priority == b.priority
    &&& same_claim(b, a)
    &&& a.updated_at@ == now
}

/// `a` is `b` released at `now`: back in `backlog` in its project, without
/// a claim.
pub open spec fn released(b: ItemRecord, a: ItemRecord, now: Seq<char>) -> bool {
    &&& same_identity(b, a)
    &&& a.state == ItemState::Backlog
    &&& a.project == b.project
    &&& a.priority == b.priority
    &&& unclaimed(a)
    &&& a.updated_at@ == now
}

/// `a` is `b` assigned to `project` at `now`, with `priority` when one was
/// given and its own otherwise.
pub open spec fn assigned(b: ItemRecord, a: ItemRecord, project: Seq<char>, priority: Option<Priority>, now: Seq<char>) -> bool {
    &&& same_identity(b, a)
    &&& a.state == ItemState::Backlog
    &&& (a.project matches Some(p) && p@ == project)
    &&& a.priority == (match priority { Some(p) => p, None => b.priority })
    &&& same_claim(b, a)
    &&& a.updated_at@ == now
}

/// `a` is `b` with priority `priority` at `now`, nothing else changed.
pub open spec fn reprioritized(b: ItemRecord, a: ItemRecord, priority: Priority, now: Seq<char>) -> bool {
    &&& same_identity(b, a)
    &&& a.state == b.state
    &&& a.project == b.project
    &&& a.priority == priority
    &&& same_claim(b, a)
    &&& a.updated_at@ == now
}

/// A `move` of `b` to `target` is possible.
pub open spec fn move_allowed(b: ItemRecord, target: ItemState) -> bool {
    match target {
        ItemState::Inbox | ItemState::Unmatched => true,
        ItemState::Backlog | ItemState::Done => b.project is Some,
        ItemState::Running => b.project is Some && b.session_id is Some,
    }
}

/// `a` is `b` moved to `target` at `now`: project and claim cleared where
/// the target forbids them, kept otherwise.
pub open spec fn moved(b: ItemRecord, a: ItemRecord, target: ItemState, now: Seq<char>) -> bool {
    let clear_project = target == ItemState::Inbox || target == ItemState::Unmatched;
    let clear_claim = clear_project || target == ItemState::Backlog;
    &&& same_identity(b, a)
    &&& a.state == target
    &&& a.project == (if clear_project { None } else { b.project })
    &&& a.priority == b.priority
    &&& (if clear_claim { unclaimed(a) } else { same_claim(b, a) })
    &&& a.updated_at@ == now
}

/// `a` is `b` claimed by `session`/`agent` at `now`: `running`, with the
/// claim recorded.
pub open spec fn claimed(b: ItemRecord, a: ItemRecord, session: Seq<char>, agent: Seq<char>, now: Seq<char>) -> bool {
    &&& same_identity(b, a)
    &&& a.state == ItemState::Running
    &&& a.project == b.project
    &&& a.priority == b.priority
    &&& (a.session_id matches Some(s) && s@ == session)
    &&& (a.agent matches Some(x) && x@ == agent)
    &&& (a.claimed_at matches Some(c) && c@ == now)
    &&& a.updated_at@ == now
}

/// Completes a claimed item (`running -> done`). The claim columns are kept:
/// who did the work survives completion. Any other state is a conflict.
pub fn mark_done(before: ItemRecord, now: &str) -> (r: Result<Transition, AppError>)
    ensures
        before.state == ItemState::Running ==> (r matches Ok(t) && t.before == before
            && completed(before, t.after, now@)),
        before.state != ItemState::Running ==> (r matches Err(e) && plain_error(
            ErrorKind::Conflict,
            complete_refusal(before.id@, before.state),
            e,
        )),
{
    if before.state != ItemState::Running {
        let msg = state_hint(&before.id, before.state, ", not running; only a claimed item can be completed");
        return Err(AppError::with_message(ErrorKind::Conflict, msg));
    }
    let after = rewrite(
        &before,
        ItemState::Done,
        copy_opt(&before.project),
        before.priority,
        copy_opt(&before.session_id),
        copy_opt(&before.agent),
        copy_opt(&before.claimed_at),
        now,
    );
    Ok(Transition { before, after })
}

/// Drops a claim and returns the item to `backlog`, clearing the session,
/// agent and claim time. Only a running item has a claim to drop.
pub fn release(before: ItemRecord, now: &str) -> (r: Result<Transition, AppError>)
    ensures
        before.state == ItemState::Running ==> (r matches Ok(t) && t.before == before
            && released(before, t.after, now@)),
        before.state != ItemState::Running ==> (r matches Err(e) && plain_error(
            ErrorKind::Conflict,
            release_refusal(before.id@, before.state),
            e,
        )),
{
    if before.state != ItemState::Running {
        let msg = state_hint(&before.id, before.state, ", not running; there is no claim to release");
        return Err(AppError::with_message(ErrorKind::Conflict, msg));
    }
    let after = rewrite(&before, ItemState::Backlog, copy_opt(&before.project), before.priority, None, None, None, now);
    Ok(Transition { before, after })
}

pub open spec fn missing_project_message(name: Seq<char>) -> Seq<char> {
    "no project "@ + name
}

/// Assigns an unclassified item (`inbox`/`unmatched`) to a registered
/// project, moving it to `backlog` and optionally correcting its priority.
/// An unregistered project is `not_found`; an item that already left the
/// unclassified states is a conflict.
pub fn assign(
    before: ItemRecord,
    project: &str,
    project_registered: bool,
    priority: Option<Priority>,
    now: &str,
) -> (r: Result<Transition, AppError>)
    ensures
        !project_registered ==> (r matches Err(e) && plain_error(
            ErrorKind::NotFound,
            missing_project_message(project@),
            e,
        )),
        project_registered && !(before.state == ItemState::Inbox || before.state == ItemState::Unmatched)
            ==> (r matches Err(e) && plain_error(ErrorKind::Conflict, assign_refusal(before.id@, before.state), e)),
        project_registered && (before.state == ItemState::Inbox || before.state == ItemState::Unmatched)
            ==> (r matches Ok(t) && t.before == before && assigned(before, t.after, project@, priority, now@)),
{
    if !project_registered {
        let mut msg = String::new();
        msg.append("no project ");
        msg.append(project);
        return Err(AppError::with_message(ErrorKind::NotFound, msg));
    }
    if !(before.state == ItemState::Inbox || before.state == ItemState::Unmatched) {
        let msg = state_hint(&before.id, before.state, "; only an inbox or unmatched item can be assigned");
        return Err(AppError::with_message(ErrorKind::Conflict, msg));
    }
    let new_priority = match priority {
        Some(p) => p,
        None => before.priority,
    };
    let after = rewrite(
        &before,
        ItemState::Backlog,
        Some(owned(project)),
        new_priority,
        copy_opt(&before.session_id),
        copy_opt(&before.agent),
        copy_opt(&before.claimed_at),
        now,
    );
    Ok(Transition { before, after })
}

/// Corrects the priority without touching the state; legal from every state.
pub fn set_priority(before: ItemRecord, priority: Priority, now: &str) -> (t: Transition)
    ensures
        t.before == before,
        reprioritized(before, t.after, priority, now@),
{
    let after = rewrite(
        &before,
        before.state,
        copy_opt(&before.project),
        priority,
        copy_opt(&before.session_id),
        copy_opt(&before.agent),
        copy_opt(&before.claimed_at),
        now,
    );
    Transition { before, after }
}

/// Which columns a `move` clears for the target state to satisfy the row
/// invariant.
#[derive(Debug, Clone, Copy, PartialEq, Eq)]
pub struct MovePlan {
    pub clear_project: bool,
    pub clear_claim: bool,
}

pub open spec fn running_move_refusal() -> Seq<char> {
    "running needs a project and a claim, and `move` can invent neither; use `next` to claim a backlog item"@
}

pub open spec fn unassigned_move_refusal(target: ItemState) -> Seq<char> {
    state_token(target) + " needs a project; assign the item first"@
}

/// Why `move` cannot take a row to `target`: `running` needs a claim
/// that `move` cannot invent; any other refused target needs a project.
pub open spec fn move_refusal(target: ItemState) -> Seq<char> {
    if target == ItemState::Running { running_move_refusal() } else { unassigned_move_refusal(target) }
}

/// Plans a `move`: `inbox`/`unmatched` end with neither project nor claim,
/// `backlog` keeps its project and drops the claim, `running` and `done`
/// keep both. A target the row cannot reach is a conflict: an unassigned
/// item cannot enter a project state, and `move` cannot invent the claim a
/// running item needs.
pub fn plan_move(target: ItemState, project: Option<&str>, session_id: Option<&str>) -> (r: Result<MovePlan, AppError>)
    ensures
        match target {
            ItemState::Inbox | ItemState::Unmatched => r == Ok::<MovePlan, AppError>(MovePlan { clear_project: true, clear_claim: true }),
            ItemState::Backlog => if project is Some {
                r == Ok::<MovePlan, AppError>(MovePlan { clear_project: false, clear_claim: true })
            } else {
                r matches Err(e) && plain_error(ErrorKind::Conflict, unassigned_move_refusal(target), e)
            },
            ItemState::Done => if project is Some {
                r == Ok::<MovePlan, AppError>(MovePlan { clear_project: false, clear_claim: false })
            } else {
                r matches Err(e) && plain_error(ErrorKind::Conflict, unassigned_move_refusal(target), e)
            },
            ItemState::Running => if project is Some && session_id is Some {
                r == Ok::<MovePlan, AppError>(MovePlan { clear_project: false, clear_claim: false })
            } else {
                r matches Err(e) && plain_error(ErrorKind::Conflict, running_move_refusal(), e)
            },
        },
{
    match target {
        ItemState::Inbox | ItemState::Unmatched => Ok(MovePlan { clear_project: true, clear_claim: true }),
        ItemState::Backlog if project.is_some() => Ok(MovePlan { clear_project: false, clear_claim: true }),
        ItemState::Done if project.is_some() => Ok(MovePlan { clear_project: false, clear_claim: false }),
        ItemState::Running if project.is_some() && session_id.is_some() => Ok(MovePlan {
            clear_project: false,
            clear_claim: false,
        }),
        ItemState::Running => Err(AppError::new(
            ErrorKind::Conflict,
            "running needs a project and a claim, and `move` can invent neither; use `next` to claim a backlog item",
        )),
        _ => {
            let mut msg = String::new();
            msg.append(target.as_str());
            msg.append(" needs a project; assign the item first");
            Err(AppError::with_message(ErrorKind::Conflict, msg))
        },
    }
}

fn opt_str(o: &Option<String>) -> (r: Option<&str>)
    ensures
        r is Some <==> o is Some,
{
    match o {
        Some(s) => Some(s.as_str()),
        None => None,
    }
}

/// The `move` escape hatch: forces the item into `target`, clearing what the
/// plan says the target forbids.
pub fn move_item(before: ItemRecord, target: ItemState, now: &str) -> (r: Result<Transition, AppError>)
    ensures
        match r {
            Ok(t) => t.before == before && moved(before, t.after, target, now@),
            Err(e) => plain_error(ErrorKind::Conflict, move_refusal(target), e),
        },
        r is Ok <==> move_allowed(before, target),
{
    let plan = plan_move(target, opt_str(&before.project), opt_str(&before.session_id));
    match plan {
        Err(e) => Err(e),
        Ok(plan) => {
            let project = if plan.clear_project { None } else { copy_opt(&before.project) };
            let (session_id, agent, claimed_at) = if plan.clear_claim {
                (None, None, None)
            } else {
                (copy_opt(&before.session_id), copy_opt(&before.agent), copy_opt(&before.claimed_at))
            };
            let after = rewrite(&before, target, project, before.priority, session_id, agent, claimed_at, now);
            Ok(Transition { before, after })
        },
    }
}

/// Claims a backlog item for `session`/`agent`: `backlog -> running`, with
/// the claim recorded at `now`.
pub fn claim(before: &ItemRecord, session: &str, agent: &str, now: &str) -> (r: ItemRecord)
    requires
        before.state == ItemState::Backlog,
    ensures
        claimed(*before, r, session@, agent@, now@),
{
    rewrite(
        before,
        ItemState::Running,
        copy_opt(&before.project),
        before.priority,
        Some(owned(session)),
        Some(owned(agent)),
        Some(owned(now)),
        now,
    )
}

// ---------------------------------------------------------------------------
// The claim order.
// ---------------------------------------------------------------------------

/// `item` is waiting in `project`'s backlog.
pub open spec fn claimable(item: ItemRecord, project: Seq<char>) -> bool {
    item.state == ItemState::Backlog && (item.project matches Some(p) && p@ == project)
}

/// `a` is handed out before `b`: the more urgent priority first, then the
/// older item.
pub open spec fn claimed_before(a: ItemRecord, b: ItemRecord) -> bool {
    priority_rank(a.priority) < priority_rank(b.priority)
        || (a.priority == b.priority && lex_lt(a.created_at@, b.created_at@))
}

proof fn lemma_claimed_before_transitive(a: ItemRecord, b: ItemRecord, c: ItemRecord)
    requires
        claimed_before(a, b),
        claimed_before(b, c),
    ensures
        claimed_before(a, c),
{
    if a.priority == b.priority && b.priority == c.priority {
        lemma_lex_transitive(a.created_at@, b.created_at@, c.created_at@);
    }
}

fn rank(p: Priority) -> (r: u8)
    ensures
        r as int == priority_rank(p),
{
    match p {
        Priority::P0 => 0,
        Priority::P1 => 1,
        Priority::P2 => 2,
        Priority::P3 => 3,
    }
}

fn project_is(item: &ItemRecord, project: &str) -> (r: bool)
    ensures
        r == claimable(*item, project@),
{
    match &item.project {
        Some(p) => item.state == ItemState::Backlog && str_eq(p.as_str(), project),
        None => false,
    }
}

/// The position of the item the next claim on `project` receives: among
/// that project's backlog items, one that no other is handed out before.
/// `None` when the backlog is empty (an unregistered project has none).
pub fn pick_next(items: &Vec<ItemRecord>, project: &str) -> (r: Option<usize>)
    ensures
        r is None <==> forall|k: int| 0 <= k < items@.len() ==> !claimable(#[trigger] items@[k], project@),
        r matches Some(i) ==> i < items@.len() && claimable(items@[i as int], project@)
            && forall|k: int| 0 <= k < items@.len() && claimable(#[trigger] items@[k], project@)
                ==> !claimed_before(items@[k], items@[i as int]),
{
    let mut best: Option<usize> = None;
    let mut k: usize = 0;
    while k < items.len()
        invariant
            k <= items@.len(),
            best is None <==> forall|t: int| 0 <= t < k ==> !claimable(#[trigger] items@[t], project@),
            best matches Some(b) ==> b < k && claimable(items@[b as int], project@)
                && forall|t: int| 0 <= t < k && claimable(#[trigger] items@[t], project@)
                    ==> !claimed_before(items@[t], items@[b as int]),
        decreases items@.len() - k,
    {
        let item = &items[k];
        if project_is(item, project) {
            match best {
                None => {
                    best = Some(k);
                    proof {
                        lemma_lex_irreflexive(item.created_at@);
                    }
                },
                Some(b) => {
                    let current = &items[b];
                    let earlier = rank(item.priority) < rank(current.priority)
                        || (item.priority == current.priority
                            && str_lt(item.created_at.as_str(), current.created_at.as_str()));
                    if earlier {
                        proof {
                            assert forall|t: int| 0 <= t < k + 1 && claimable(#[trigger] items@[t], project@)
                                implies !claimed_before(items@[t], items@[k as int]) by {
                                if t == k {
                                    lemma_lex_irreflexive(items@[k as int].created_at@);
                                } else if claimed_before(items@[t], items@[k as int]) {
                                    lemma_claimed_before_transitive(items@[t], items@[k as int], items@[b as int]);
                                }
                            }
                        }
                        best = Some(k);
                    }
                },
            }
        }
        k = k + 1;
    }
    best
}

/// Claims `project`'s next backlog item among `items` for `session`/`agent`:
/// the row `pick_next` chooses, moved to `running` with the claim recorded
/// at `now`. An empty backlog is no error: it answers `None`.
pub fn claim_next(items: &Vec<ItemRecord>, project: &str, session: &str, agent: &str, now: &str) -> (r: Option<ItemRecord>)
    ensures
        r is None <==> forall|k: int| 0 <= k < items@.len() ==> !claimable(#[trigger] items@[k], project@),
        r matches Some(after) ==> exists|i: int| #![trigger items@[i]] 0 <= i < items@.len() && {
            let before = items@[i];
            &&& claimable(before, project@)
            &&& forall|k: int| 0 <= k < items@.len() && claimable(#[trigger] items@[k], project@)
                ==> !claimed_before(items@[k], before)
            &&& claimed(before, after, session@, agent@, now@)
        },
{
    match pick_next(items, project) {
        None => None,
        Some(i) => {
            let after = claim(&items[i], session, agent, now);
            assert(items@[i as int] == items[i as int]);
            Some(after)
        },
    }
}

// ---------------------------------------------------------------------------
// Laws of the board.
// ---------------------------------------------------------------------------

/// Every transition keeps the row invariant: a row that satisfies it before
/// completing, releasing, assigning, re-prioritizing or claiming (from the
/// states those commands accept) still satisfies it after, and a permitted
/// `move` lands on a row that satisfies it whatever the row was.
pub proof fn lemma_transitions_keep_row_invariant(
    before: ItemRecord,
    after: ItemRecord,
    project: Seq<char>,
    priority: Option<Priority>,
    new_priority: Priority,
    target: ItemState,
    session: Seq<char>,
    agent: Seq<char>,
    now: Seq<char>,
)
    ensures
        row_ok(before) && before.state == ItemState::Running && completed(before, after, now) ==> row_ok(after),
        row_ok(before) && before.state == ItemState::Running && released(before, after, now) ==> row_ok(after),
        row_ok(before) && (before.state == ItemState::Inbox || before.state == ItemState::Unmatched)
            && assigned(before, after, project, priority, now) ==> row_ok(after),
        row_ok(before) && reprioritized(before, after, new_priority, now) ==> row_ok(after),
        row_ok(before) && before.state == ItemState::Backlog && claimed(before, after, session, agent, now)
            ==> row_ok(after),
        move_allowed(before, target) && moved(before, after, target, now) ==> row_ok(after),
{
}

/// Releasing a claim undoes it: an unclaimed backlog item that is claimed
/// and then released is back where it was, with the same state, project,
/// priority and (absent) claim; only its update time moved.
pub proof fn lemma_release_undoes_claim(
    start: ItemRecord,
    running: ItemRecord,
    back: ItemRecord,
    session: Seq<char>,
    agent: Seq<char>,
    claimed_at: Seq<char>,
    released_at: Seq<char>,
)
    requires
        start.state == ItemState::Backlog,
        unclaimed(start),
        claimed(start, running, session, agent, claimed_at),
        released(running, back, released_at),
    ensures
        same_identity(start, back),
        back.state == start.state,
        back.project == start.project,
        back.priority == start.priority,
        same_claim(start, back),
        back.updated_at@ == released_at,
{
}

/// A claimed item is no longer claimable: a second claim on the same
/// project can never hand it out again.
pub proof fn lemma_claimed_item_is_not_claimable(
    before: ItemRecord,
    after: ItemRecord,
    project: Seq<char>,
    session: Seq<char>,
    agent: Seq<char>,
    now: Seq<char>,
)
    requires
        claimed(before, after, session, agent, now),
    ensures
        !claimable(after, project),
{
}

/// Completion keeps the record of who did the work: a completed item holds
/// the session and agent of the claim it completed.
pub proof fn lemma_done_keeps_the_claim(before: ItemRecord, after: ItemRecord, now: Seq<char>)
    requires
        completed(before, after, now),
    ensures
        after.session_id == before.session_id,
        after.agent == before.agent,
        after.claimed_at == before.claimed_at,
{
}

/// Stored priority tokens sort as urgency does: `P0` before `P1` before
/// `P2` before `P3`, so ordering by the token text orders by urgency.
pub proof fn lemma_priority_tokens_sort_by_urgency(a: Priority, b: Priority)
    ensures
        lex_lt(priority_token(a), priority_token(b)) == (priority_rank(a) < priority_rank(b)),
{
    reveal_strlit("P0");
    reveal_strlit("P1");
    reveal_strlit("P2");
    reveal_strlit("P3");
    reveal_with_fuel(lex_lt, 3);
    let ta = priority_token(a);
    let tb = priority_token(b);
    assert(ta.len() == 2 && tb.len() == 2 && ta[0] == 'P' && tb[0] == 'P');
    assert(ta.drop_first().len() == 1 && tb.drop_first().len() == 1);
    assert(ta.drop_first()[0] == ta[1] && tb.drop_first()[0] == tb[1]);
    assert(ta.drop_first().drop_first().len() == 0 && tb.drop_first().drop_first().len() == 0);
}

/// Every state and priority is read back from its stored token, and a token
/// that decodes names the value it is the token of.
pub proof fn lemma_tokens_round_trip(s: ItemState, p: Priority, raw: Seq<char>)
    ensures
        state_of_token(state_token(s)) == Some(s),
        priority_of_token(priority_token(p)) == Some(p),
        state_of_token(raw) matches Some(t) ==> raw == state_token(t),
        priority_of_token(raw) matches Some(q) ==> raw == priority_token(q),
{
    reveal_strlit("inbox");
    reveal_strlit("unmatched");
    reveal_strlit("backlog");
    reveal_strlit("running");
    reveal_strlit("done");
    reveal_strlit("P0");
    reveal_strlit("P1");
    reveal_strlit("P2");
    reveal_strlit("P3");
    assert("inbox"@.len() == 5 && "unmatched"@.len() == 9 && "backlog"@.len() == 7);
    assert("running"@.len() == 7 && "done"@.len() == 4);
    assert("backlog"@[0] != "running"@[0]);
    assert("inbox"@ != "unmatched"@ && "inbox"@ != "backlog"@ && "inbox"@ != "running"@ && "inbox"@ != "done"@);
    assert("unmatched"@ != "backlog"@ && "unmatched"@ != "running"@ && "unmatched"@ != "done"@);
    assert("backlog"@ != "running"@ && "backlog"@ != "done"@ && "running"@ != "done"@);
    assert("P0"@ != "P1"@ && "P0"@ != "P2"@ && "P0"@ != "P3"@) by {
        assert("P0"@[1] != "P1"@[1] && "P0"@[1] != "P2"@[1] && "P0"@[1] != "P3"@[1]);
    }
    assert("P1"@ != "P2"@ && "P1"@ != "P3"@ && "P2"@ != "P3"@) by {
        assert("P1"@[1] != "P2"@[1] && "P1"@[1] != "P3"@[1] && "P2"@[1] != "P3"@[1]);
    }
}

// ---------------------------------------------------------------------------
// Listing.
// ---------------------------------------------------------------------------

/// `list` filters. `label` matches a label *key*.
#[derive(Debug, Clone, Copy, Default, PartialEq, Eq)]
pub struct ItemFilter<'a> {
    pub project: Option<&'a str>,
    pub state: Option<&'a str>,
    pub label: Option<&'a str>,
}

/// `item`, whose labels have the keys `keys`, passes every filter that is
/// set: it is in `project`, in `state`, and carries a label keyed `label`.
pub open spec fn passes(
    item: ItemRecord,
    keys: Seq<String>,
    project: Option<Seq<char>>,
    state: Option<ItemState>,
    label: Option<Seq<char>>,
) -> bool {
    &&& (match project { Some(p) => item.project matches Some(q) && q@ == p, None => true })
    &&& (match state { Some(s) => item.state == s, None => true })
    &&& (match label {
        Some(l) => exists|k: int| 0 <= k < keys.len() && (#[trigger] keys[k])@ == l,
        None => true,
    })
}

/// The items among the first `n` that pass the filters, in their order.
pub open spec fn selected(
    items: Seq<ItemRecord>,
    keys: Seq<Seq<String>>,
    project: Option<Seq<char>>,
    state: Option<ItemState>,
    label: Option<Seq<char>>,
    n: int,
) -> Seq<ItemRecord>
    decreases n,
{
    if n <= 0 {
        Seq::empty()
    } else if passes(items[n - 1], keys[n - 1], project, state, label) {
        selected(items, keys, project, state, label, n - 1).push(items[n - 1])
    } else {
        selected(items, keys, project, state, label, n - 1)
    }
}

/// `a` is listed before `b`: older first, then by id.
pub open spec fn listed_before(a: ItemRecord, b: ItemRecord) -> bool {
    lex_lt(a.created_at@, b.created_at@) || (a.created_at@ == b.created_at@ && lex_lt(a.id@, b.id@))
}

/// No item of `s` is listed before one that precedes it.
pub open spec fn in_list_order(s: Seq<ItemRecord>) -> bool {
    forall|i: int, j: int| 0 <= i < j < s.len() ==> !listed_before(#[trigger] s[j], #[trigger] s[i])
}

proof fn lemma_listed_before_transitive(a: ItemRecord, b: ItemRecord, c: ItemRecord)
    requires
        listed_before(a, b),
        listed_before(b, c),
    ensures
        listed_before(a, c),
{
    if lex_lt(a.created_at@, b.created_at@) && lex_lt(b.created_at@, c.created_at@) {
        lemma_lex_transitive(a.created_at@, b.created_at@, c.created_at@);
    } else if a.created_at@ == b.created_at@ && b.created_at@ == c.created_at@ {
        lemma_lex_transitive(a.id@, b.id@, c.id@);
    }
}

fn copy_item(item: &ItemRecord) -> (r: ItemRecord)
    ensures
        r == *item,
{
    ItemRecord {
        id: copy_text(&item.id),
        source: copy_text(&item.source),
        external_id: copy_text(&item.external_id),
        title: copy_text(&item.title),
        body: copy_text(&item.body),
        state: item.state,
        project: copy_opt(&item.project),
        priority: item.priority,
        session_id: copy_opt(&item.session_id),
        agent: copy_opt(&item.agent),
        claimed_at: copy_opt(&item.claimed_at),
        created_at: copy_text(&item.created_at),
        updated_at: copy_text(&item.updated_at),
    }
}

fn before_in_list(a: &ItemRecord, b: &ItemRecord) -> (r: bool)
    ensures
        r == listed_before(*a, *b),
{
    str_lt(a.created_at.as_str(), b.created_at.as_str())
        || (str_eq(a.created_at.as_str(), b.created_at.as_str()) && str_lt(a.id.as_str(), b.id.as_str()))
}

/// Puts `item` into the ordered `out` after every item not listed after it.
fn insert_in_order(out: &mut Vec<ItemRecord>, item: ItemRecord)
    requires
        in_list_order(old(out)@),
    ensures
        in_list_order(final(out)@),
        final(out)@.to_multiset() == old(out)@.to_multiset().insert(item),
{
    let mut p: usize = 0;
    while p < out.len() && !before_in_list(&item, &out[p])
        invariant
            p <= out@.len(),
            forall|k: int| 0 <= k < p ==> !listed_before(item, #[trigger] out@[k]),
        decreases out@.len() - p,
    {
        p = p + 1;
    }
    let ghost prev = out@;
    proof {
        assert forall|k: int| p <= k < prev.len() implies !listed_before(#[trigger] prev[k], item) by {
            if listed_before(prev[k], item) {
                lemma_listed_before_transitive(prev[k], item, prev[p as int]);
                if k == p {
                    lemma_lex_irreflexive(prev[k].created_at@);
                    lemma_lex_irreflexive(prev[k].id@);
                } else {
                    assert(!listed_before(prev[k], prev[p as int]));
                }
            }
        }
        vstd::seq_lib::to_multiset_insert(prev, p as int, item);
    }
    out.insert(p, item);
    proof {
        let now = out@;
        assert(now == prev.insert(p as int, item));
        assert forall|i: int, j: int| 0 <= i < j < now.len() implies !listed_before(#[trigger] now[j], #[trigger] now[i]) by {
            if j < p {
            } else if j == p {
            } else if i < p {
                assert(now[j] == prev[j - 1]);
                if listed_before(prev[j - 1], prev[i]) {
                }
            } else if i == p {
                assert(now[j] == prev[j - 1]);
            } else {
                assert(now[j] == prev[j - 1] && now[i] == prev[i - 1]);
            }
        }
    }
}

/// Lists the items (each given with the keys of its labels) that pass the
/// filter, oldest first and then by id. An unknown state filter is a usage
/// error.
pub fn list_items(items: &Vec<ItemRecord>, label_keys: &Vec<Vec<String>>, filter: &ItemFilter) -> (r: Result<Vec<ItemRecord>, AppError>)
    requires
        label_keys@.len() == items@.len(),
    ensures
        match filter.state {
            Some(raw) => match state_of_token(raw@) {
                None => r matches Err(e) && plain_error(ErrorKind::Usage, unknown_state_message(raw@), e),
                Some(_) => r is Ok,
            },
            None => r is Ok,
        },
        r matches Ok(out) ==> in_list_order(out@) && out@.to_multiset() == selected(
            items@,
            label_keys@.map_values(|k: Vec<String>| k@),
            match filter.project { Some(p) => Some(p@), None => None },
            match filter.state { Some(raw) => state_of_token(raw@), None => None },
            match filter.label { Some(l) => Some(l@), None => None },
            items@.len() as int,
        ).to_multiset(),
{
    let state = match filter.state {
        Some(raw) => match parse_state(raw) {
            Ok(s) => Some(s),
            Err(e) => return Err(e),
        },
        None => None,
    };
    let ghost keys = label_keys@.map_values(|k: Vec<String>| k@);
    let ghost project = match filter.project { Some(p) => Some(p@), None => None };
    let ghost label = match filter.label { Some(l) => Some(l@), None => None };
    let mut out: Vec<ItemRecord> = Vec::new();
    let mut k: usize = 0;
    while k < items.len()
        invariant
            k <= items@.len(),
            label_keys@.len() == items@.len(),
            keys == label_keys@.map_values(|k: Vec<String>| k@),
            project == (match filter.project { Some(p) => Some(p@), None => None }),
            label == (match filter.label { Some(l) => Some(l@), None => None }),
            state == (match filter.state { Some(raw) => state_of_token(raw@), None => None }),
            in_list_order(out@),
            out@.to_multiset() == selected(items@, keys, project, state, label, k as int).to_multiset(),
        decreases items@.len() - k,
    {
        let item = &items[k];
        let keys_here = &label_keys[k];
        let in_project = match filter.project {
            Some(p) => match &item.project {
                Some(q) => str_eq(q.as_str(), p),
                None => false,
            },
            None => true,
        };
        let in_state = match state {
            Some(s) => item.state == s,
            None => true,
        };
        let mut labelled = true;
        if let Some(l) = filter.label {
            labelled = false;
            let mut j: usize = 0;
            while j < keys_here.len()
                invariant
                    j <= keys_here@.len(),
                    labelled <==> exists|t: int| 0 <= t < j && (#[trigger] keys_here@[t])@ == l@,
                decreases keys_here@.len() - j,
            {
                if str_eq(keys_here[j].as_str(), l) {
                    labelled = true;
                }
                j = j + 1;
            }
        }
        proof {
            assert(keys[k as int] == keys_here@);
            assert(items@[k as int] == *item);
        }
        proof {
            assert((in_project && in_state && labelled) == passes(items@[k as int], keys[k as int], project, state, label));
            vstd::seq_lib::to_multiset_build(selected(items@, keys, project, state, label, k as int), items@[k as int]);
        }
        if in_project && in_state && labelled {
            let copy = copy_item(item);
            insert_in_order(&mut out, copy);
        }
        k = k + 1;
    }
    Ok(out)
}


// ---------------------------------------------------------------------------
// Successive claims hand each backlog item out once.
// ---------------------------------------------------------------------------

/// `after` is `before` once a claim has taken one claimable item of
/// `project` and written back `taken`, the same item now running. This is
/// what [`claim_next`] answers and the store writes back.
pub open spec fn hands_out(before: Seq<ItemRecord>, after: Seq<ItemRecord>, project: Seq<char>, taken: ItemRecord) -> bool {
    exists|i: int| #![trigger before[i]]
        0 <= i < before.len() && claimable(before[i], project) && same_identity(before[i], taken)
            && taken.state == ItemState::Running && after == before.update(i, taken)
}

/// What [`claim_next`] answers, written back at the row it came from, is
/// one step of a claim run.
pub proof fn lemma_claim_is_a_hand_out(
    items: Seq<ItemRecord>,
    i: int,
    project: Seq<char>,
    session: Seq<char>,
    agent: Seq<char>,
    now: Seq<char>,
    after: ItemRecord,
)
    requires
        0 <= i < items.len(),
        claimable(items[i], project),
        claimed(items[i], after, session, agent, now),
    ensures
        hands_out(items, items.update(i, after), project, after),
{
}

/// No two rows of the board share an id.
pub open spec fn ids_distinct(board: Seq<ItemRecord>) -> bool {
    forall|i: int, j: int| 0 <= i < board.len() && 0 <= j < board.len() && i != j ==> #[trigger] board[i].id@ != #[trigger] board[j].id@
}

/// A run of claims: `boards[j + 1]` is `boards[j]` once the `j`-th claim,
/// on `projects[j]`, handed out `taken[j]`.
pub open spec fn claim_run(boards: Seq<Seq<ItemRecord>>, projects: Seq<Seq<char>>, taken: Seq<ItemRecord>) -> bool {
    &&& boards.len() == taken.len() + 1
    &&& projects.len() == taken.len()
    &&& forall|j: int| 0 <= j < taken.len() ==> hands_out(boards[j], boards[j + 1], projects[j], #[trigger] taken[j])
}

/// The rows keep their places and ids.
#[verifier::opaque]
pub open spec fn same_rows(start: Seq<ItemRecord>, now: Seq<ItemRecord>) -> bool {
    &&& now.len() == start.len()
    &&& forall|i: int| 0 <= i < start.len() ==> (#[trigger] now[i]).id == start[i].id
}

/// A row is either as it started or running.
#[verifier::opaque]
pub open spec fn only_claimed_changed(start: Seq<ItemRecord>, now: Seq<ItemRecord>) -> bool {
    forall|i: int| 0 <= i < start.len() ==> #[trigger] now[i] == start[i] || now[i].state == ItemState::Running
}

/// Each of the first `m` items handed out is a running row that was
/// claimable for its project at the start.
#[verifier::opaque]
pub open spec fn taken_rows_running(
    start: Seq<ItemRecord>,
    now: Seq<ItemRecord>,
    projects: Seq<Seq<char>>,
    taken: Seq<ItemRecord>,
    m: int,
) -> bool {
    forall|j: int| 0 <= j < m ==> exists|i: int| #![trigger now[i]]
        0 <= i < start.len() && now[i].state == ItemState::Running && now[i].id == (#[trigger] taken[j]).id
            && claimable(start[i], projects[j])
}

/// Every row that became running was handed out by one of the first `m`
/// claims.
#[verifier::opaque]
pub open spec fn running_rows_taken(start: Seq<ItemRecord>, now: Seq<ItemRecord>, taken: Seq<ItemRecord>, m: int) -> bool {
    forall|i: int| 0 <= i < start.len() && (#[trigger] now[i]).state == ItemState::Running
        && start[i].state != ItemState::Running ==> exists|j: int| 0 <= j < m && (#[trigger] taken[j]).id == start[i].id
}

/// The first `m` items handed out have distinct ids.
#[verifier::opaque]
pub open spec fn taken_distinct(taken: Seq<ItemRecord>, m: int) -> bool {
    forall|j1: int, j2: int| 0 <= j1 < j2 < m ==> (#[trigger] taken[j1]).id@ != (#[trigger] taken[j2]).id@
}

/// What holds of the board `now` reached from `start` by the first `m`
/// claims of a run.
pub open spec fn run_prefix_holds(
    start: Seq<ItemRecord>,
    now: Seq<ItemRecord>,
    projects: Seq<Seq<char>>,
    taken: Seq<ItemRecord>,
    m: int,
) -> bool {
    &&& same_rows(start, now)
    &&& only_claimed_changed(start, now)
    &&& taken_rows_running(start, now, projects, taken, m)
    &&& running_rows_taken(start, now, taken, m)
    &&& taken_distinct(taken, m)
}

/// The facts one claim step gives, at the row `i2` it took.
pub open spec fn step_at(
    start: Seq<ItemRecord>,
    cur: Seq<ItemRecord>,
    next: Seq<ItemRecord>,
    projects: Seq<Seq<char>>,
    taken: Seq<ItemRecord>,
    k: int,
    i2: int,
) -> bool {
    &&& 0 <= k < taken.len()
    &&& k < projects.len()
    &&& 0 <= i2 < cur.len()
    &&& claimable(cur[i2], projects[k])
    &&& same_identity(cur[i2], taken[k])
    &&& taken[k].state == ItemState::Running
    &&& next == cur.update(i2, taken[k])
    &&& cur[i2] == start[i2]
}

proof fn lemma_step_untouched(start: Seq<ItemRecord>, cur: Seq<ItemRecord>, next: Seq<ItemRecord>, projects: Seq<Seq<char>>, taken: Seq<ItemRecord>, k: int, i2: int)
    requires
        same_rows(start, cur),
        only_claimed_changed(start, cur),
        step_at(start, cur, next, projects, taken, k, i2),
    ensures
        same_rows(start, next),
        only_claimed_changed(start, next),
{
    reveal(same_rows);
    reveal(only_claimed_changed);
    assert forall|i: int| 0 <= i < start.len() implies (#[trigger] next[i]).id == start[i].id by {
        assert(cur[i].id == start[i].id);
    }
    assert forall|i: int| 0 <= i < start.len() implies #[trigger] next[i] == start[i] || next[i].state == ItemState::Running by {
        assert(cur[i] == start[i] || cur[i].state == ItemState::Running);
    }
}

proof fn lemma_step_taken_running(start: Seq<ItemRecord>, cur: Seq<ItemRecord>, next: Seq<ItemRecord>, projects: Seq<Seq<char>>, taken: Seq<ItemRecord>, k: int, i2: int)
    requires
        same_rows(start, cur),
        taken_rows_running(start, cur, projects, taken, k),
        step_at(start, cur, next, projects, taken, k, i2),
    ensures
        taken_rows_running(start, next, projects, taken, k + 1),
{
    reveal(same_rows);
    reveal(taken_rows_running);
    assert forall|j: int| 0 <= j < k + 1 implies exists|i: int| #![trigger next[i]]
        0 <= i < start.len() && next[i].state == ItemState::Running && next[i].id == (#[trigger] taken[j]).id
            && claimable(start[i], projects[j]) by {
        if j < k {
            let i = choose|i: int| #![trigger cur[i]]
                0 <= i < start.len() && cur[i].state == ItemState::Running && cur[i].id == taken[j].id
                    && claimable(start[i], projects[j]);
            assert(i != i2);
            assert(next[i] == cur[i]);
        } else {
            assert(next[i2] == taken[k]);
        }
    }
}

proof fn lemma_step_running_taken(start: Seq<ItemRecord>, cur: Seq<ItemRecord>, next: Seq<ItemRecord>, projects: Seq<Seq<char>>, taken: Seq<ItemRecord>, k: int, i2: int)
    requires
        same_rows(start, cur),
        only_claimed_changed(start, cur),
        running_rows_taken(start, cur, taken, k),
        step_at(start, cur, next, projects, taken, k, i2),
    ensures
        running_rows_taken(start, next, taken, k + 1),
{
    reveal(same_rows);
    reveal(only_claimed_changed);
    reveal(running_rows_taken);
    assert forall|i: int| 0 <= i < start.len() && (#[trigger] next[i]).state == ItemState::Running
        && start[i].state != ItemState::Running implies exists|j: int| 0 <= j < k + 1 && (#[trigger] taken[j]).id == start[i].id by {
        if i == i2 {
            assert(taken[k].id == start[i].id);
        } else {
            assert(next[i] == cur[i]);
            assert(cur[i] == start[i] || cur[i].state == ItemState::Running);
            let j = choose|j: int| 0 <= j < k && (#[trigger] taken[j]).id == start[i].id;
            assert(0 <= j < k + 1 && taken[j].id == start[i].id);
        }
    }
}

proof fn lemma_step_distinct(start: Seq<ItemRecord>, cur: Seq<ItemRecord>, next: Seq<ItemRecord>, projects: Seq<Seq<char>>, taken: Seq<ItemRecord>, k: int, i2: int)
    requires
        ids_distinct(start),
        same_rows(start, cur),
        taken_rows_running(start, cur, projects, taken, k),
        taken_distinct(taken, k),
        step_at(start, cur, next, projects, taken, k, i2),
    ensures
        taken_distinct(taken, k + 1),
{
    reveal(same_rows);
    reveal(taken_rows_running);
    reveal(taken_distinct);
    assert forall|j1: int, j2: int| 0 <= j1 < j2 < k + 1 implies (#[trigger] taken[j1]).id@ != (#[trigger] taken[j2]).id@ by {
        if j2 == k {
            let i = choose|i: int| #![trigger cur[i]]
                0 <= i < start.len() && cur[i].state == ItemState::Running && cur[i].id == taken[j1].id
                    && claimable(start[i], projects[j1]);
            assert(i != i2);
            assert(start[i].id@ != start[i2].id@);
            assert(cur[i2].id == start[i2].id);
        }
    }
}

proof fn lemma_run_prefix(boards: Seq<Seq<ItemRecord>>, projects: Seq<Seq<char>>, taken: Seq<ItemRecord>, m: int)
    requires
        claim_run(boards, projects, taken),
        ids_distinct(boards[0]),
        0 <= m <= taken.len(),
    ensures
        run_prefix_holds(boards[0], boards[m], projects, taken, m),
    decreases m,
{
    let start = boards[0];
    if m == 0 {
        reveal(same_rows);
        reveal(only_claimed_changed);
        reveal(taken_rows_running);
        reveal(running_rows_taken);
        reveal(taken_distinct);
        return;
    }
    let k = m - 1;
    lemma_run_prefix(boards, projects, taken, k);
    let cur = boards[k];
    let next = boards[m];
    assert(hands_out(boards[k], boards[k + 1], projects[k], taken[k]));
    let i2 = choose|i: int| #![trigger cur[i]]
        0 <= i < cur.len() && claimable(cur[i], projects[k]) && same_identity(cur[i], taken[k])
            && taken[k].state == ItemState::Running && next == cur.update(i, taken[k]);
    assert(cur[i2] == start[i2]) by {
        reveal(only_claimed_changed);
        reveal(same_rows);
    }
    lemma_step_untouched(start, cur, next, projects, taken, k, i2);
    lemma_step_taken_running(start, cur, next, projects, taken, k, i2);
    lemma_step_running_taken(start, cur, next, projects, taken, k, i2);
    lemma_step_distinct(start, cur, next, projects, taken, k, i2);
}

proof fn lemma_taken_were_claimable(start: Seq<ItemRecord>, last: Seq<ItemRecord>, projects: Seq<Seq<char>>, taken: Seq<ItemRecord>)
    requires
        same_rows(start, last),
        taken_rows_running(start, last, projects, taken, taken.len() as int),
    ensures
        forall|j: int| 0 <= j < taken.len() ==> exists|i: int| #![trigger start[i]]
            0 <= i < start.len() && start[i].id == (#[trigger] taken[j]).id && claimable(start[i], projects[j]),
{
    reveal(same_rows);
    reveal(taken_rows_running);
    assert forall|j: int| 0 <= j < taken.len() implies exists|i: int| #![trigger start[i]]
        0 <= i < start.len() && start[i].id == (#[trigger] taken[j]).id && claimable(start[i], projects[j]) by {
        let i = choose|i: int| #![trigger last[i]]
            0 <= i < start.len() && last[i].state == ItemState::Running && last[i].id == taken[j].id
                && claimable(start[i], projects[j]);
        assert(start[i].id == last[i].id);
    }
}

proof fn lemma_backlog_emptied(start: Seq<ItemRecord>, last: Seq<ItemRecord>, taken: Seq<ItemRecord>, project: Seq<char>)
    requires
        same_rows(start, last),
        only_claimed_changed(start, last),
        running_rows_taken(start, last, taken, taken.len() as int),
    ensures
        (forall|i: int| 0 <= i < last.len() ==> !claimable(#[trigger] last[i], project))
            ==> forall|i: int| 0 <= i < start.len() && claimable(#[trigger] start[i], project)
                ==> exists|j: int| 0 <= j < taken.len() && (#[trigger] taken[j]).id == start[i].id,
{
    reveal(same_rows);
    reveal(only_claimed_changed);
    reveal(running_rows_taken);
    if forall|i: int| 0 <= i < last.len() ==> !claimable(#[trigger] last[i], project) {
        assert forall|i: int| 0 <= i < start.len() && claimable(#[trigger] start[i], project)
            implies exists|j: int| 0 <= j < taken.len() && (#[trigger] taken[j]).id == start[i].id by {
            assert(!claimable(last[i], project));
            assert(last[i] == start[i] || last[i].state == ItemState::Running);
        }
    }
}

/// Successive claims never hand out one item twice, hand out only items
/// that were claimable from the start, and a run that ends with nothing
/// claimable left for a project has handed out every item that project
/// had in its backlog, each exactly once. Whatever order the claims come
/// in (the store runs each in its own write transaction), the board moves
/// through such a run.
pub proof fn lemma_claims_hand_out_each_item_once(
    boards: Seq<Seq<ItemRecord>>,
    projects: Seq<Seq<char>>,
    taken: Seq<ItemRecord>,
    project: Seq<char>,
)
    requires
        claim_run(boards, projects, taken),
        ids_distinct(boards[0]),
    ensures
        forall|j1: int, j2: int| 0 <= j1 < j2 < taken.len() ==> (#[trigger] taken[j1]).id@ != (#[trigger] taken[j2]).id@,
        forall|j: int| 0 <= j < taken.len() ==> exists|i: int| #![trigger boards[0][i]]
            0 <= i < boards[0].len() && boards[0][i].id == (#[trigger] taken[j]).id && claimable(boards[0][i], projects[j]),
        (forall|i: int| 0 <= i < boards[taken.len() as int].len() ==> !claimable(#[trigger] boards[taken.len() as int][i], project))
            ==> forall|i: int| 0 <= i < boards[0].len() && claimable(#[trigger] boards[0][i], project)
                ==> exists|j: int| 0 <= j < taken.len() && (#[trigger] taken[j]).id == boards[0][i].id,
{
    let n = taken.len() as int;
    lemma_run_prefix(boards, projects, taken, n);
    lemma_taken_were_claimable(boards[0], boards[n], projects, taken);
    lemma_backlog_emptied(boards[0], boards[n], taken, project);
    reveal(taken_distinct);
}

} // verus!
