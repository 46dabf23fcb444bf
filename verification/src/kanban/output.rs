//! What each `kanban` command answers, its human rendering, and where a
//! result goes. The JSON envelope is written by the program around the
//! library; the human text, the stream and the exit code are decided here.

use vstd::prelude::*;
use vstd::string::*;
use crate::kanban::error::{exit_code, exit_code_of, human_error, AppError};
use crate::text::{decimal, joined, lemma_joined_push, u64_to_decimal};

verus! {

/// A label: `key=value`, with the classifier's score when it set the label.
/// The score is carried as the bit pattern of the IEEE-754 double the board
/// stores, so it passes through unchanged.
#[derive(Debug, Clone, PartialEq, Eq)]
pub struct LabelData {
    pub key: String,
    pub value: String,
    pub confidence_bits: Option<u64>,
}

/// A registered project; `description` is the classification rationale.
#[derive(Debug, Clone, PartialEq, Eq)]
pub struct ProjectData {
    pub name: String,
    pub description: String,
    pub created_at: String,
}

#[derive(Debug, Clone, PartialEq, Eq)]
pub struct ProjectListData {
    pub count: usize,
    pub projects: Vec<ProjectData>,
}

/// `project rm` result: the row is gone.
#[derive(Debug, Clone, PartialEq, Eq)]
pub struct ProjectRmData {
    pub name: String,
}

/// `init` result: the database file it ensured exists, and whether this
/// call created it.
#[derive(Debug, Clone, PartialEq, Eq)]
pub struct InitData {
    pub path: String,
    pub created: bool,
}

/// `add` result, carrying the dedup key `(source, external_id)` back with
/// the minted `id`.
#[derive(Debug, Clone, PartialEq, Eq)]
pub struct AddData {
    pub id: String,
    pub source: String,
    pub external_id: String,
    pub title: String,
    pub state: String,
    pub created_at: String,
}

/// One item as `list` reports it: the row without its body.
#[derive(Debug, Clone, PartialEq, Eq)]
pub struct ItemSummaryData {
    pub id: String,
    pub source: String,
    pub external_id: String,
    pub title: String,
    pub state: String,
    pub project: Option<String>,
    pub priority: String,
    pub session_id: Option<String>,
    pub agent: Option<String>,
    pub claimed_at: Option<String>,
    pub created_at: String,
    pub updated_at: String,
    pub labels: Vec<LabelData>,
}

/// The full item, as `show` returns it.
#[derive(Debug, Clone, PartialEq, Eq)]
pub struct ItemData {
    pub id: String,
    pub source: String,
    pub external_id: String,
    pub title: String,
    pub body: String,
    pub state: String,
    pub project: Option<String>,
    pub priority: String,
    pub session_id: Option<String>,
    pub agent: Option<String>,
    pub claimed_at: Option<String>,
    pub created_at: String,
    pub updated_at: String,
    pub labels: Vec<LabelData>,
}

#[derive(Debug, Clone, PartialEq, Eq)]
pub struct ListData {
    pub count: usize,
    pub items: Vec<ItemSummaryData>,
}

/// The item `next` claimed, with the claim it just recorded.
#[derive(Debug, Clone, PartialEq, Eq)]
pub struct ClaimedItemData {
    pub id: String,
    pub title: String,
    pub body: String,
    pub project: String,
    pub priority: String,
    pub state: String,
    pub session_id: String,
    pub agent: String,
    pub claimed_at: String,
}

/// `next` result: the claimed item, or `{"id": null}` for an empty backlog.
#[derive(Debug, Clone, PartialEq, Eq)]
pub enum NextData {
    Claimed(ClaimedItemData),
    Empty { id: Option<String> },
}

impl NextData {
    /// The empty-backlog answer, `{"id": null}`.
    pub fn empty() -> (r: NextData)
        ensures
            r == (NextData::Empty { id: None }),
    {
        NextData::Empty { id: None }
    }
}

/// `done` result; the claim is kept, absent when a human completed the item.
#[derive(Debug, Clone, PartialEq, Eq)]
pub struct DoneData {
    pub id: String,
    pub state: String,
    pub project: String,
    pub session_id: Option<String>,
    pub agent: Option<String>,
    pub updated_at: String,
}

/// `release` result, reporting the claim it dropped.
#[derive(Debug, Clone, PartialEq, Eq)]
pub struct ReleaseData {
    pub id: String,
    pub state: String,
    pub project: String,
    pub reason: String,
    pub released_session_id: Option<String>,
    pub released_agent: Option<String>,
    pub updated_at: String,
}

/// `assign` result, with the state the item was corrected from.
#[derive(Debug, Clone, PartialEq, Eq)]
pub struct AssignData {
    pub id: String,
    pub state: String,
    pub previous_state: String,
    pub project: String,
    pub priority: String,
    pub updated_at: String,
}

/// `priority` result: both ends of the correction.
#[derive(Debug, Clone, PartialEq, Eq)]
pub struct PriorityData {
    pub id: String,
    pub priority: String,
    pub previous_priority: String,
    pub updated_at: String,
}

/// `move` result: both ends of the transition.
#[derive(Debug, Clone, PartialEq, Eq)]
pub struct MoveData {
    pub id: String,
    pub from_state: String,
    pub to_state: String,
    pub project: Option<String>,
    pub updated_at: String,
}

/// Command result payload, one variant per subcommand.
#[derive(Debug, Clone, PartialEq, Eq)]
pub enum Payload {
    Init(InitData),
    ProjectAdd(ProjectData),
    ProjectList(ProjectListData),
    ProjectRm(ProjectRmData),
    Add(AddData),
    List(ListData),
    Show(ItemData),
    Next(NextData),
    Done(DoneData),
    Release(ReleaseData),
    Assign(AssignData),
    Priority(PriorityData),
    Move(MoveData),
}

// ---------------------------------------------------------------------------
// Human text.
// ---------------------------------------------------------------------------

/// A claim for human output; `done` keeps a claim and `release` reports the
/// one it dropped, so both need the "no claim" wording.
pub open spec fn claim_text(session: Option<String>, agent: Option<String>) -> Seq<char> {
    match (session, agent) {
        (Some(s), Some(a)) => a@ + "/"@ + s@,
        (Some(s), None) => "session "@ + s@,
        (None, Some(a)) => "agent "@ + a@,
        (None, None) => "no session"@,
    }
}

/// A project name, or `-` for an unassigned item.
pub open spec fn project_text(project: Option<String>) -> Seq<char> {
    match project {
        Some(p) => p@,
        None => "-"@,
    }
}

pub open spec fn label_texts(labels: Seq<LabelData>) -> Seq<Seq<char>> {
    labels.map_values(|l: LabelData| l.key@ + "="@ + l.value@)
}

/// Labels as `key=value` pairs separated by `, `.
pub open spec fn labels_text(labels: Seq<LabelData>) -> Seq<char> {
    joined(label_texts(labels), ", "@)
}

/// Each part on a line of its own after whatever precedes it.
pub open spec fn each_on_new_line(parts: Seq<Seq<char>>) -> Seq<char>
    decreases parts.len(),
{
    if parts.len() == 0 {
        Seq::empty()
    } else {
        each_on_new_line(parts.drop_last()) + "\n"@ + parts.last()
    }
}

pub open spec fn summary_text(item: ItemSummaryData) -> Seq<char> {
    item.id@ + "  ["@ + item.state@ + "/"@ + item.priority@ + "]  "@ + project_text(item.project) + "  "@
        + item.title@ + (if item.labels@.len() > 0 {
        "\n  labels: "@ + labels_text(item.labels@)
    } else {
        Seq::empty()
    })
}

pub open spec fn item_text(item: ItemData) -> Seq<char> {
    item.id@ + "  ["@ + item.state@ + "/"@ + item.priority@ + "]  "@ + project_text(item.project)
        + "\ntitle: "@ + item.title@ + "\nsource: "@ + item.source@ + "/"@ + item.external_id@
        + "\ncreated: "@ + item.created_at@ + "  updated: "@ + item.updated_at@
        + (if item.session_id is Some || item.agent is Some {
        "\nclaim: "@ + claim_text(item.session_id, item.agent)
    } else {
        Seq::empty()
    }) + (if item.labels@.len() > 0 {
        "\nlabels: "@ + labels_text(item.labels@)
    } else {
        Seq::empty()
    }) + "\n\n"@ + item.body@
}

pub open spec fn project_line(p: ProjectData) -> Seq<char> {
    p.name@ + ": "@ + p.description@
}

/// The label text that `show` and `list` render lists every label in
/// order: one label is `key=value`, and each further label adds
/// `, key=value` at the end.
pub proof fn lemma_labels_text_lists_every_label(labels: Seq<LabelData>, label: LabelData)
    ensures
        labels_text(Seq::empty()) == Seq::<char>::empty(),
        labels_text(seq![label]) == label.key@ + "="@ + label.value@,
        labels.len() > 0 ==> labels_text(labels.push(label)) == labels_text(labels) + ", "@ + label.key@ + "="@ + label.value@,
{
    lemma_joined_push(label_texts(labels), ", "@, label.key@ + "="@ + label.value@);
    lemma_joined_push(Seq::empty(), ", "@, label.key@ + "="@ + label.value@);
    assert(label_texts(labels.push(label)) =~= label_texts(labels).push(label.key@ + "="@ + label.value@));
    assert(label_texts(seq![label]) =~= Seq::<Seq<char>>::empty().push(label.key@ + "="@ + label.value@));
    assert(label_texts(Seq::empty()) =~= Seq::<Seq<char>>::empty());
}

/// `show` ends with the item's labels, when it has any, then a blank line
/// and the body: the whole label list, as [`lemma_labels_text_lists_every_label`]
/// describes it.
pub proof fn lemma_show_ends_with_labels_and_body(item: ItemData)
    ensures
        item.labels@.len() > 0 ==> exists|head: Seq<char>|
            #[trigger] item_text(item) == head + "\nlabels: "@ + labels_text(item.labels@) + "\n\n"@ + item.body@,
        item.labels@.len() == 0 ==> exists|head: Seq<char>| #[trigger] item_text(item) == head + "\n\n"@ + item.body@,
{
    let head = item.id@ + "  ["@ + item.state@ + "/"@ + item.priority@ + "]  "@ + project_text(item.project)
        + "\ntitle: "@ + item.title@ + "\nsource: "@ + item.source@ + "/"@ + item.external_id@
        + "\ncreated: "@ + item.created_at@ + "  updated: "@ + item.updated_at@
        + (if item.session_id is Some || item.agent is Some {
        "\nclaim: "@ + claim_text(item.session_id, item.agent)
    } else {
        Seq::empty()
    });
    if item.labels@.len() > 0 {
        assert(item_text(item) =~= head + "\nlabels: "@ + labels_text(item.labels@) + "\n\n"@ + item.body@);
    } else {
        assert(item_text(item) =~= head + "\n\n"@ + item.body@);
    }
}

/// A listed item shows every one of its labels, in order: with one label
/// its line gains `\n  labels: key=value`, and each further label adds
/// `, key=value` at the end, so the listing carries the whole label list.
pub proof fn lemma_listing_shows_every_label(
    bare: ItemSummaryData,
    one: ItemSummaryData,
    before: ItemSummaryData,
    after: ItemSummaryData,
    label: LabelData,
)
    ensures
        bare.labels@.len() == 0 && one.labels@ == seq![label] && same_summary_head(bare, one)
            ==> summary_text(one) == summary_text(bare) + "\n  labels: "@ + label.key@ + "="@ + label.value@,
        before.labels@.len() > 0 && after.labels@ == before.labels@.push(label) && same_summary_head(before, after)
            ==> summary_text(after) == summary_text(before) + ", "@ + label.key@ + "="@ + label.value@,
{
    lemma_joined_push(label_texts(before.labels@), ", "@, label.key@ + "="@ + label.value@);
    lemma_joined_push(Seq::empty(), ", "@, label.key@ + "="@ + label.value@);
    assert(label_texts(before.labels@.push(label)) =~= label_texts(before.labels@).push(label.key@ + "="@ + label.value@));
    assert(label_texts(seq![label]) =~= Seq::<Seq<char>>::empty().push(label.key@ + "="@ + label.value@));
    if bare.labels@.len() == 0 && one.labels@ == seq![label] && same_summary_head(bare, one) {
        assert(summary_text(one) =~= summary_text(bare) + "\n  labels: "@ + label.key@ + "="@ + label.value@);
    }
    if before.labels@.len() > 0 && after.labels@ == before.labels@.push(label) && same_summary_head(before, after) {
        assert(summary_text(after) =~= summary_text(before) + ", "@ + label.key@ + "="@ + label.value@);
    }
}

/// Two summaries agree on everything but their labels.
pub open spec fn same_summary_head(a: ItemSummaryData, b: ItemSummaryData) -> bool {
    &&& a.id == b.id
    &&& a.state == b.state
    &&& a.priority == b.priority
    &&& a.project == b.project
    &&& a.title == b.title
}

/// The human-readable rendering of each payload.
pub open spec fn payload_text(p: Payload) -> Seq<char> {
    match p {
        Payload::Init(d) => if d.created {
            "board initialized: "@ + d.path@
        } else {
            "board already initialized: "@ + d.path@
        },
        Payload::ProjectAdd(d) => "added project "@ + d.name@ + ": "@ + d.description@,
        Payload::ProjectList(d) => decimal(d.count as nat) + " project(s)"@
            + each_on_new_line(d.projects@.map_values(|q: ProjectData| project_line(q))),
        Payload::ProjectRm(d) => "removed project "@ + d.name@,
        Payload::Add(d) => "added "@ + d.id@ + " to "@ + d.state@ + " ("@ + d.source@ + "/"@ + d.external_id@
            + "): "@ + d.title@,
        Payload::List(d) => decimal(d.count as nat) + " item(s)"@
            + each_on_new_line(d.items@.map_values(|i: ItemSummaryData| summary_text(i))),
        Payload::Show(d) => item_text(d),
        Payload::Next(NextData::Claimed(d)) => "claimed "@ + d.id@ + " ["@ + d.priority@ + "] in "@ + d.project@
            + " as "@ + d.agent@ + "/"@ + d.session_id@ + ": "@ + d.title@,
        Payload::Next(NextData::Empty { .. }) => "no backlog item to claim"@,
        Payload::Done(d) => d.id@ + " done in "@ + d.project@ + " ("@ + claim_text(d.session_id, d.agent) + ")"@,
        Payload::Release(d) => d.id@ + " released to "@ + d.state@ + " in "@ + d.project@ + " ("@
            + claim_text(d.released_session_id, d.released_agent) + "): "@ + d.reason@,
        Payload::Assign(d) => d.id@ + " assigned to "@ + d.project@ + " ["@ + d.priority@ + "] ("@
            + d.previous_state@ + " -> "@ + d.state@ + ")"@,
        Payload::Priority(d) => d.id@ + " priority "@ + d.previous_priority@ + " -> "@ + d.priority@,
        Payload::Move(d) => d.id@ + " moved "@ + d.from_state@ + " -> "@ + d.to_state@,
    }
}

pub fn format_claim(session_id: &Option<String>, agent: &Option<String>) -> (r: String)
    ensures
        r@ == claim_text(*session_id, *agent),
{
    let mut r = String::new();
    match (session_id, agent) {
        (Some(session), Some(agent)) => {
            r.append(agent.as_str());
            r.append("/");
            r.append(session.as_str());
        },
        (Some(session), None) => {
            r.append("session ");
            r.append(session.as_str());
        },
        (None, Some(agent)) => {
            r.append("agent ");
            r.append(agent.as_str());
        },
        (None, None) => {
            r.append("no session");
        },
    }
    r
}

pub fn format_project(project: &Option<String>) -> (r: &str)
    ensures
        r@ == project_text(*project),
{
    match project {
        Some(p) => p.as_str(),
        None => "-",
    }
}

pub fn format_labels(labels: &Vec<LabelData>) -> (r: String)
    ensures
        r@ == labels_text(labels@),
{
    let mut r = String::new();
    let mut i: usize = 0;
    while i < labels.len()
        invariant
            i <= labels@.len(),
            r@ == joined(label_texts(labels@.subrange(0, i as int)), ", "@),
        decreases labels@.len() - i,
    {
        let l = &labels[i];
        proof {
            lemma_joined_push(label_texts(labels@.subrange(0, i as int)), ", "@, l.key@ + "="@ + l.value@);
            assert(label_texts(labels@.subrange(0, i + 1)) =~= label_texts(labels@.subrange(0, i as int)).push(
                l.key@ + "="@ + l.value@,
            ));
        }
        if i > 0 {
            r.append(", ");
        }
        r.append(l.key.as_str());
        r.append("=");
        r.append(l.value.as_str());
        i = i + 1;
    }
    assert(labels@.subrange(0, labels@.len() as int) =~= labels@);
    r
}

pub fn format_summary(item: &ItemSummaryData) -> (r: String)
    ensures
        r@ == summary_text(*item),
{
    let mut line = String::new();
    line.append(item.id.as_str());
    line.append("  [");
    line.append(item.state.as_str());
    line.append("/");
    line.append(item.priority.as_str());
    line.append("]  ");
    line.append(format_project(&item.project));
    line.append("  ");
    line.append(item.title.as_str());
    if item.labels.len() > 0 {
        line.append("\n  labels: ");
        let labels = format_labels(&item.labels);
        line.append(labels.as_str());
    }
    line
}

pub fn format_item(item: &ItemData) -> (r: String)
    ensures
        r@ == item_text(*item),
{
    let mut text = String::new();
    text.append(item.id.as_str());
    text.append("  [");
    text.append(item.state.as_str());
    text.append("/");
    text.append(item.priority.as_str());
    text.append("]  ");
    text.append(format_project(&item.project));
    text.append("\ntitle: ");
    text.append(item.title.as_str());
    text.append("\nsource: ");
    text.append(item.source.as_str());
    text.append("/");
    text.append(item.external_id.as_str());
    text.append("\ncreated: ");
    text.append(item.created_at.as_str());
    text.append("  updated: ");
    text.append(item.updated_at.as_str());
    if item.session_id.is_some() || item.agent.is_some() {
        text.append("\nclaim: ");
        let claim = format_claim(&item.session_id, &item.agent);
        text.append(claim.as_str());
    }
    if item.labels.len() > 0 {
        text.append("\nlabels: ");
        let labels = format_labels(&item.labels);
        text.append(labels.as_str());
    }
    text.append("\n\n");
    text.append(item.body.as_str());
    text
}

proof fn lemma_new_line_push(parts: Seq<Seq<char>>, next: Seq<char>)
    ensures
        each_on_new_line(parts.push(next)) == each_on_new_line(parts) + "\n"@ + next,
{
    assert(parts.push(next).drop_last() =~= parts);
}

fn project_lines(projects: &Vec<ProjectData>) -> (r: String)
    ensures
        r@ == each_on_new_line(projects@.map_values(|q: ProjectData| project_line(q))),
{
    let mut r = String::new();
    let mut i: usize = 0;
    while i < projects.len()
        invariant
            i <= projects@.len(),
            r@ == each_on_new_line(projects@.subrange(0, i as int).map_values(|q: ProjectData| project_line(q))),
        decreases projects@.len() - i,
    {
        let p = &projects[i];
        proof {
            lemma_new_line_push(projects@.subrange(0, i as int).map_values(|q: ProjectData| project_line(q)), project_line(*p));
            assert(projects@.subrange(0, i + 1).map_values(|q: ProjectData| project_line(q))
                =~= projects@.subrange(0, i as int).map_values(|q: ProjectData| project_line(q)).push(project_line(*p)));
        }
        r.append("\n");
        r.append(p.name.as_str());
        r.append(": ");
        r.append(p.description.as_str());
        i = i + 1;
    }
    assert(projects@.subrange(0, projects@.len() as int) =~= projects@);
    r
}

fn summary_lines(items: &Vec<ItemSummaryData>) -> (r: String)
    ensures
        r@ == each_on_new_line(items@.map_values(|x: ItemSummaryData| summary_text(x))),
{
    let mut r = String::new();
    let mut i: usize = 0;
    while i < items.len()
        invariant
            i <= items@.len(),
            r@ == each_on_new_line(items@.subrange(0, i as int).map_values(|x: ItemSummaryData| summary_text(x))),
        decreases items@.len() - i,
    {
        let item = &items[i];
        proof {
            lemma_new_line_push(items@.subrange(0, i as int).map_values(|x: ItemSummaryData| summary_text(x)), summary_text(*item));
            assert(items@.subrange(0, i + 1).map_values(|x: ItemSummaryData| summary_text(x))
                =~= items@.subrange(0, i as int).map_values(|x: ItemSummaryData| summary_text(x)).push(summary_text(*item)));
        }
        r.append("\n");
        let line = format_summary(item);
        r.append(line.as_str());
        i = i + 1;
    }
    assert(items@.subrange(0, items@.len() as int) =~= items@);
    r
}

impl Payload {
    pub fn to_human(&self) -> (r: String)
        ensures
            r@ == payload_text(*self),
    {
        let mut r = String::new();
        match self {
            Payload::Init(d) => {
                if d.created {
                    r.append("board initialized: ");
                } else {
                    r.append("board already initialized: ");
                }
                r.append(d.path.as_str());
            },
            Payload::ProjectAdd(d) => {
                r.append("added project ");
                r.append(d.name.as_str());
                r.append(": ");
                r.append(d.description.as_str());
            },
            Payload::ProjectList(d) => {
                r.append(u64_to_decimal(d.count as u64).as_str());
                r.append(" project(s)");
                let lines = project_lines(&d.projects);
                r.append(lines.as_str());
            },
            Payload::ProjectRm(d) => {
                r.append("removed project ");
                r.append(d.name.as_str());
            },
            Payload::Add(d) => {
                r.append("added ");
                r.append(d.id.as_str());
                r.append(" to ");
                r.append(d.state.as_str());
                r.append(" (");
                r.append(d.source.as_str());
                r.append("/");
                r.append(d.external_id.as_str());
                r.append("): ");
                r.append(d.title.as_str());
            },
            Payload::List(d) => {
                r.append(u64_to_decimal(d.count as u64).as_str());
                r.append(" item(s)");
                let lines = summary_lines(&d.items);
                r.append(lines.as_str());
            },
            Payload::Show(d) => {
                let text = format_item(d);
                r.append(text.as_str());
            },
            Payload::Next(NextData::Claimed(d)) => {
                r.append("claimed ");
                r.append(d.id.as_str());
                r.append(" [");
                r.append(d.priority.as_str());
                r.append("] in ");
                r.append(d.project.as_str());
                r.append(" as ");
                r.append(d.agent.as_str());
                r.append("/");
                r.append(d.session_id.as_str());
                r.append(": ");
                r.append(d.title.as_str());
            },
            Payload::Next(NextData::Empty { .. }) => {
                r.append("no backlog item to claim");
            },
            Payload::Done(d) => {
                r.append(d.id.as_str());
                r.append(" done in ");
                r.append(d.project.as_str());
                r.append(" (");
                let claim = format_claim(&d.session_id, &d.agent);
                r.append(claim.as_str());
                r.append(")");
            },
            Payload::Release(d) => {
                r.append(d.id.as_str());
                r.append(" released to ");
                r.append(d.state.as_str());
                r.append(" in ");
                r.append(d.project.as_str());
                r.append(" (");
                let claim = format_claim(&d.released_session_id, &d.released_agent);
                r.append(claim.as_str());
                r.append("): ");
                r.append(d.reason.as_str());
            },
            Payload::Assign(d) => {
                r.append(d.id.as_str());
                r.append(" assigned to ");
                r.append(d.project.as_str());
                r.append(" [");
                r.append(d.priority.as_str());
                r.append("] (");
                r.append(d.previous_state.as_str());
                r.append(" -> ");
                r.append(d.state.as_str());
                r.append(")");
            },
            Payload::Priority(d) => {
                r.append(d.id.as_str());
                r.append(" priority ");
                r.append(d.previous_priority.as_str());
                r.append(" -> ");
                r.append(d.priority.as_str());
            },
            Payload::Move(d) => {
                r.append(d.id.as_str());
                r.append(" moved ");
                r.append(d.from_state.as_str());
                r.append(" -> ");
                r.append(d.to_state.as_str());
            },
        }
        assert(r@ =~= payload_text(*self));
        r
    }
}

/// Which stream a rendered line belongs on. Human-mode errors are
/// diagnostics and go to stderr; every other case is a result on stdout.
#[derive(Debug, Clone, Copy, PartialEq, Eq, Structural)]
pub enum Sink {
    Stdout,
    Stderr,
}

/// Where a command result goes and its exit code: success is stdout and 0;
/// an error goes to stdout in JSON mode and to stderr in human mode, with its
/// kind's exit code in both.
pub open spec fn routing(result: Result<Payload, AppError>, json: bool) -> (Sink, i32) {
    match result {
        Ok(_) => (Sink::Stdout, 0),
        Err(e) => (if json { Sink::Stdout } else { Sink::Stderr }, exit_code_of(e.kind)),
    }
}

pub fn route(result: &Result<Payload, AppError>, json: bool) -> (r: (Sink, i32))
    ensures
        r == routing(*result, json),
{
    match result {
        Ok(_) => (Sink::Stdout, 0),
        Err(err) => {
            let sink = if json { Sink::Stdout } else { Sink::Stderr };
            (sink, exit_code(err))
        },
    }
}

/// The human text for a command result: the payload's rendering, or the
/// error's.
pub fn human_text(result: &Result<Payload, AppError>) -> (r: String)
    ensures
        r@ == match *result {
            Ok(p) => payload_text(p),
            Err(e) => human_error(e),
        },
{
    match result {
        Ok(payload) => payload.to_human(),
        Err(err) => err.to_human(),
    }
}

/// The exit code of a result is the same in JSON and human mode, and a
/// success is always printed on stdout with exit code 0.
pub proof fn lemma_exit_code_ignores_mode(result: Result<Payload, AppError>, json: bool)
    ensures
        routing(result, true).1 == routing(result, false).1,
        result is Ok ==> routing(result, json) == (Sink::Stdout, 0i32),
{
}

} // verus!
