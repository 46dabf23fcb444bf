//! What each subcommand answers, built from the rows the board wrote. The
//! program opens the store, performs the transition the board rules decide,
//! and hands the rows here; nothing here touches the store.

use vstd::prelude::*;
use crate::kanban::board::{ItemRecord, ProjectRecord, Transition};
use crate::kanban::cli::{priority_token, state_token};
use crate::kanban::output::{
    AssignData, ClaimedItemData, ItemData, ItemSummaryData, LabelData, ListData, MoveData, NextData, Payload,
    PriorityData, ProjectData, ProjectListData, ProjectRmData, ReleaseData,
};

verus! {

fn owned(s: &str) -> (r: String)
    ensures
        r@ == s@,
{
    s.to_owned()
}

/// `project add`: the registered project, description echoed back.
pub fn project_added(project: ProjectRecord) -> (r: Payload)
    ensures
        r matches Payload::ProjectAdd(d) && d.name == project.name && d.description == project.description
            && d.created_at == project.created_at,
{
    Payload::ProjectAdd(ProjectData {
        name: project.name,
        description: project.description,
        created_at: project.created_at,
    })
}

/// `project list`: every registered project, with the count.
pub fn project_listing(projects: Vec<ProjectRecord>) -> (r: Payload)
    ensures
        r matches Payload::ProjectList(d) && d.count == projects@.len() && d.projects@.len() == projects@.len()
            && forall|i: int| 0 <= i < projects@.len() ==> {
                let p = #[trigger] d.projects@[i];
                &&& p.name == projects@[i].name
                &&& p.description == projects@[i].description
                &&& p.created_at == projects@[i].created_at
            },
{
    let n = projects.len();
    let mut out: Vec<ProjectData> = Vec::new();
    let mut rest = projects;
    let ghost orig = rest@;
    while rest.len() > 0
        invariant
            out@.len() + rest@.len() == orig.len(),
            rest@ == orig.subrange(0, rest@.len() as int),
            forall|i: int| 0 <= i < out@.len() ==> {
                let p = #[trigger] out@[i];
                let q = orig[orig.len() - 1 - i];
                &&& p.name == q.name
                &&& p.description == q.description
                &&& p.created_at == q.created_at
            },
        decreases rest@.len(),
    {
        let q = rest.pop().unwrap();
        out.push(ProjectData { name: q.name, description: q.description, created_at: q.created_at });
    }
    let mut ordered: Vec<ProjectData> = Vec::new();
    while out.len() > 0
        invariant
            ordered@.len() + out@.len() == orig.len(),
            forall|i: int| 0 <= i < out@.len() ==> {
                let p = #[trigger] out@[i];
                let q = orig[orig.len() - 1 - i];
                &&& p.name == q.name
                &&& p.description == q.description
                &&& p.created_at == q.created_at
            },
            forall|i: int| 0 <= i < ordered@.len() ==> {
                let p = #[trigger] ordered@[i];
                let q = orig[i];
                &&& p.name == q.name
                &&& p.description == q.description
                &&& p.created_at == q.created_at
            },
        decreases out@.len(),
    {
        let p = out.pop().unwrap();
        ordered.push(p);
    }
    Payload::ProjectList(ProjectListData { count: n, projects: ordered })
}

/// `project rm`: the name of the project that is gone.
pub fn project_removed(name: &str) -> (r: Payload)
    ensures
        r matches Payload::ProjectRm(d) && d.name@ == name@,
{
    Payload::ProjectRm(ProjectRmData { name: owned(name) })
}

/// One listed item: the row without its body, with its labels.
pub fn summary_of(item: ItemRecord, labels: Vec<LabelData>) -> (r: ItemSummaryData)
    ensures
        r.id == item.id,
        r.source == item.source,
        r.external_id == item.external_id,
        r.title == item.title,
        r.state@ == state_token(item.state),
        r.project == item.project,
        r.priority@ == priority_token(item.priority),
        r.session_id == item.session_id,
        r.agent == item.agent,
        r.claimed_at == item.claimed_at,
        r.created_at == item.created_at,
        r.updated_at == item.updated_at,
        r.labels == labels,
{
    ItemSummaryData {
        id: item.id,
        source: item.source,
        external_id: item.external_id,
        title: item.title,
        state: owned(item.state.as_str()),
        project: item.project,
        priority: owned(item.priority.as_str()),
        session_id: item.session_id,
        agent: item.agent,
        claimed_at: item.claimed_at,
        created_at: item.created_at,
        updated_at: item.updated_at,
        labels,
    }
}

/// `list`: the listed items with their count.
pub fn listing(items: Vec<ItemSummaryData>) -> (r: Payload)
    ensures
        r matches Payload::List(d) && d.count == items@.len() && d.items == items,
{
    let count = items.len();
    Payload::List(ListData { count, items })
}

/// `show`: the whole row with its labels.
pub fn shown(item: ItemRecord, labels: Vec<LabelData>) -> (r: Payload)
    ensures
        r matches Payload::Show(d) && {
            &&& d.id == item.id
            &&& d.source == item.source
            &&& d.external_id == item.external_id
            &&& d.title == item.title
            &&& d.body == item.body
            &&& d.state@ == state_token(item.state)
            &&& d.project == item.project
            &&& d.priority@ == priority_token(item.priority)
            &&& d.session_id == item.session_id
            &&& d.agent == item.agent
            &&& d.claimed_at == item.claimed_at
            &&& d.created_at == item.created_at
            &&& d.updated_at == item.updated_at
            &&& d.labels == labels
        },
{
    Payload::Show(ItemData {
        id: item.id,
        source: item.source,
        external_id: item.external_id,
        title: item.title,
        body: item.body,
        state: owned(item.state.as_str()),
        project: item.project,
        priority: owned(item.priority.as_str()),
        session_id: item.session_id,
        agent: item.agent,
        claimed_at: item.claimed_at,
        created_at: item.created_at,
        updated_at: item.updated_at,
        labels,
    })
}

/// `r` reports the claimed row `item`: its id, title, body, project,
/// priority and state tokens, session, agent and claim time.
pub open spec fn reports_claim(item: ItemRecord, r: ClaimedItemData) -> bool {
    &&& r.id == item.id
    &&& r.title == item.title
    &&& r.body == item.body
    &&& Some(r.project) == item.project
    &&& r.priority@ == priority_token(item.priority)
    &&& r.state@ == state_token(item.state)
    &&& Some(r.session_id) == item.session_id
    &&& Some(r.agent) == item.agent
    &&& Some(r.claimed_at) == item.claimed_at
}

/// A freshly claimed row as `next` reports it. Every claimed row has a
/// project, a session, an agent and a claim time.
pub fn claimed_item(item: ItemRecord) -> (r: ClaimedItemData)
    requires
        item.project is Some,
        item.session_id is Some,
        item.agent is Some,
        item.claimed_at is Some,
    ensures
        reports_claim(item, r),
{
    let ItemRecord { id, title, body, project, priority, state, session_id, agent, claimed_at, .. } = item;
    ClaimedItemData {
        id,
        title,
        body,
        project: project.unwrap(),
        priority: owned(priority.as_str()),
        state: owned(state.as_str()),
        session_id: session_id.unwrap(),
        agent: agent.unwrap(),
        claimed_at: claimed_at.unwrap(),
    }
}

/// `next`: the claimed item, or the empty-backlog answer.
pub fn next_answer(claimed: Option<ItemRecord>) -> (r: Payload)
    requires
        claimed matches Some(item) ==> item.project is Some && item.session_id is Some && item.agent is Some
            && item.claimed_at is Some,
    ensures
        claimed is None ==> r == Payload::Next(NextData::Empty { id: None }),
        claimed matches Some(item) ==> (r matches Payload::Next(NextData::Claimed(d)) && reports_claim(item, d)),
{
    match claimed {
        Some(item) => Payload::Next(NextData::Claimed(claimed_item(item))),
        None => Payload::Next(NextData::empty()),
    }
}

/// `release`: the item back in its project's backlog, reporting the claim
/// it dropped (from the row as it was) and why.
pub fn release_answer(t: Transition, reason: &str) -> (r: Payload)
    requires
        t.after.project is Some,
    ensures
        r matches Payload::Release(d) && {
            &&& d.id == t.after.id
            &&& d.state@ == state_token(t.after.state)
            &&& Some(d.project) == t.after.project
            &&& d.reason@ == reason@
            &&& d.released_session_id == t.before.session_id
            &&& d.released_agent == t.before.agent
            &&& d.updated_at == t.after.updated_at
        },
{
    let Transition { before, after } = t;
    Payload::Release(ReleaseData {
        id: after.id,
        state: owned(after.state.as_str()),
        project: after.project.unwrap(),
        reason: owned(reason),
        released_session_id: before.session_id,
        released_agent: before.agent,
        updated_at: after.updated_at,
    })
}

/// `assign`: the item in its project, with the state it was corrected from.
pub fn assign_answer(t: Transition) -> (r: Payload)
    requires
        t.after.project is Some,
    ensures
        r matches Payload::Assign(d) && {
            &&& d.id == t.after.id
            &&& d.state@ == state_token(t.after.state)
            &&& d.previous_state@ == state_token(t.before.state)
            &&& Some(d.project) == t.after.project
            &&& d.priority@ == priority_token(t.after.priority)
            &&& d.updated_at == t.after.updated_at
        },
{
    let Transition { before, after } = t;
    Payload::Assign(AssignData {
        id: after.id,
        state: owned(after.state.as_str()),
        previous_state: owned(before.state.as_str()),
        project: after.project.unwrap(),
        priority: owned(after.priority.as_str()),
        updated_at: after.updated_at,
    })
}

/// `priority`: both ends of the correction.
pub fn priority_answer(t: Transition) -> (r: Payload)
    ensures
        r matches Payload::Priority(d) && {
            &&& d.id == t.after.id
            &&& d.priority@ == priority_token(t.after.priority)
            &&& d.previous_priority@ == priority_token(t.before.priority)
            &&& d.updated_at == t.after.updated_at
        },
{
    let Transition { before, after } = t;
    Payload::Priority(PriorityData {
        id: after.id,
        priority: owned(after.priority.as_str()),
        previous_priority: owned(before.priority.as_str()),
        updated_at: after.updated_at,
    })
}

/// `move`: both ends of the forced transition.
pub fn move_answer(t: Transition) -> (r: Payload)
    ensures
        r matches Payload::Move(d) && {
            &&& d.id == t.after.id
            &&& d.from_state@ == state_token(t.before.state)
            &&& d.to_state@ == state_token(t.after.state)
            &&& d.project == t.after.project
            &&& d.updated_at == t.after.updated_at
        },
{
    let Transition { before, after } = t;
    Payload::Move(MoveData {
        id: after.id,
        from_state: owned(before.state.as_str()),
        to_state: owned(after.state.as_str()),
        project: after.project,
        updated_at: after.updated_at,
    })
}

} // verus!
