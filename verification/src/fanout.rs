//! The tree of subagents that a conversation has fanned out to.
//!
//! A conversation reports progress entry by entry, each with all that is known of
//! one subagent. They are folded into a list with one node for each subagent, in the
//! order in which the subagents were first seen, each with what was reported last.

use vstd::prelude::*;
use vstd::string::*;

use crate::lists;
use crate::text;

verus! {

/// How far a subagent is.
#[derive(Clone, Copy, Debug, PartialEq, Eq, Structural)]
pub enum SubagentStatus {
    Queued,
    Running,
    Done,
    Failed,
}

/// What a subagent is at.
#[derive(Debug)]
pub struct SubagentStep {
    pub label: String,
    pub sub: Option<String>,
    pub status: String,
    /// What it has written so far.
    pub stream: Option<String>,
}

/// A tool that a subagent has called, as it was reported.
#[derive(Debug)]
pub struct SubagentToolCall {
    pub report: String,
}

/// What is reported of a subagent.
#[derive(Debug)]
pub struct SubagentProgress {
    pub subagent_id: String,
    pub agent_type: String,
    pub title: String,
    pub status: SubagentStatus,
    pub tokens_used: Option<u64>,
    pub parent_id: Option<String>,
    pub step: Option<SubagentStep>,
    pub tool_calls: Vec<SubagentToolCall>,
    pub reply: Option<String>,
}

/// One subagent, with what was reported of it last.
#[derive(Debug)]
pub struct SubagentNode {
    pub subagent_id: String,
    pub agent_type: String,
    pub title: String,
    pub status: SubagentStatus,
    pub tokens_used: Option<u64>,
    pub parent_id: Option<String>,
    pub step: Option<SubagentStep>,
    /// The tools that it has called so far.
    pub tool_calls: Vec<SubagentToolCall>,
    /// Its reply, once it is done.
    pub reply: Option<String>,
}

/// The model of a step.
pub ghost struct StepModel {
    pub label: Seq<char>,
    pub sub: Option<Seq<char>>,
    pub status: Seq<char>,
    pub stream: Option<Seq<char>>,
}

/// The model of a subagent.
pub ghost struct NodeModel {
    pub id: Seq<char>,
    pub agent_type: Seq<char>,
    pub title: Seq<char>,
    pub status: SubagentStatus,
    pub tokens_used: Option<u64>,
    pub parent: Option<Seq<char>>,
    pub step: Option<StepModel>,
    pub tool_calls: Seq<Seq<char>>,
    pub reply: Option<Seq<char>>,
}

impl View for SubagentStep {
    type V = StepModel;

    open spec fn view(&self) -> StepModel {
        StepModel {
            label: self.label@,
            sub: lists::text_of(self.sub),
            status: self.status@,
            stream: lists::text_of(self.stream),
        }
    }
}

/// The model of a step that may be missing.
pub open spec fn step_model(step: Option<SubagentStep>) -> Option<StepModel> {
    match step {
        Some(s) => Some(s@),
        None => None,
    }
}

/// The reports of tool calls.
pub open spec fn reports(calls: Seq<SubagentToolCall>) -> Seq<Seq<char>> {
    Seq::new(calls.len(), |i: int| calls[i].report@)
}

impl View for SubagentProgress {
    type V = NodeModel;

    open spec fn view(&self) -> NodeModel {
        NodeModel {
            id: self.subagent_id@,
            agent_type: self.agent_type@,
            title: self.title@,
            status: self.status,
            tokens_used: self.tokens_used,
            parent: lists::text_of(self.parent_id),
            step: step_model(self.step),
            tool_calls: reports(self.tool_calls@),
            reply: lists::text_of(self.reply),
        }
    }
}

impl View for SubagentNode {
    type V = NodeModel;

    open spec fn view(&self) -> NodeModel {
        NodeModel {
            id: self.subagent_id@,
            agent_type: self.agent_type@,
            title: self.title@,
            status: self.status,
            tokens_used: self.tokens_used,
            parent: lists::text_of(self.parent_id),
            step: step_model(self.step),
            tool_calls: reports(self.tool_calls@),
            reply: lists::text_of(self.reply),
        }
    }
}

/// The models of progress entries.
pub open spec fn entry_models(entries: Seq<SubagentProgress>) -> Seq<NodeModel> {
    Seq::new(entries.len(), |i: int| entries[i]@)
}

/// The models of nodes.
pub open spec fn node_models(nodes: Seq<SubagentNode>) -> Seq<NodeModel> {
    Seq::new(nodes.len(), |i: int| nodes[i]@)
}

/// Where a subagent stands first in a list, looking from a position on.
pub open spec fn index_of(nodes: Seq<NodeModel>, id: Seq<char>, from: int) -> Option<int>
    decreases nodes.len() - from,
{
    if from >= nodes.len() {
        None
    } else if nodes[from].id == id {
        Some(from)
    } else {
        index_of(nodes, id, from + 1)
    }
}

/// The list after one more report: a known subagent keeps its place, a new one comes
/// last.
pub open spec fn with_report(nodes: Seq<NodeModel>, report: NodeModel) -> Seq<NodeModel> {
    match index_of(nodes, report.id, 0) {
        Some(i) => nodes.update(i, report),
        None => nodes.push(report),
    }
}

/// The list after all reports.
pub open spec fn folded(entries: Seq<NodeModel>) -> Seq<NodeModel>
    decreases entries.len(),
{
    if entries.len() == 0 {
        Seq::empty()
    } else {
        with_report(folded(entries.drop_last()), entries.last())
    }
}

/// How many of the subagents run.
pub open spec fn running(nodes: Seq<NodeModel>) -> nat
    decreases nodes.len(),
{
    if nodes.len() == 0 {
        0
    } else {
        running(nodes.drop_last()) + (if nodes.last().status == SubagentStatus::Running {
            1nat
        } else {
            0
        })
    }
}

/// The subagent runs and is writing.
pub open spec fn is_live(n: NodeModel) -> bool {
    n.status == SubagentStatus::Running && n.step is Some && n.step->0.stream is Some
}

fn copy_step(s: &SubagentStep) -> (r: SubagentStep)
    ensures
        r@ == s@,
{
    SubagentStep {
        label: s.label.clone(),
        sub: lists::copy_text(&s.sub),
        status: s.status.clone(),
        stream: lists::copy_text(&s.stream),
    }
}

fn copy_calls(calls: &Vec<SubagentToolCall>) -> (r: Vec<SubagentToolCall>)
    ensures
        reports(r@) == reports(calls@),
{
    let mut r: Vec<SubagentToolCall> = Vec::new();
    let mut i: usize = 0;
    while i < calls.len()
        invariant
            i <= calls.len(),
            r.len() == i,
            forall|x: int| 0 <= x < i ==> (#[trigger] r[x]).report@ == calls[x].report@,
        decreases calls.len() - i,
    {
        r.push(SubagentToolCall { report: calls[i].report.clone() });
        i += 1;
    }
    assert(reports(r@) =~= reports(calls@));
    r
}

impl SubagentProgress {
    /// The same report.
    pub fn duplicate(&self) -> (r: Self)
        ensures
            r@ == self@,
    {
        SubagentProgress {
            subagent_id: self.subagent_id.clone(),
            agent_type: self.agent_type.clone(),
            title: self.title.clone(),
            status: self.status,
            tokens_used: self.tokens_used,
            parent_id: lists::copy_text(&self.parent_id),
            step: match &self.step {
                Some(s) => Some(copy_step(s)),
                None => None,
            },
            tool_calls: copy_calls(&self.tool_calls),
            reply: lists::copy_text(&self.reply),
        }
    }
}

impl SubagentNode {
    /// The node that a report describes.
    pub fn from_progress(progress: &SubagentProgress) -> (r: Self)
        ensures
            r@ == progress@,
    {
        SubagentNode {
            subagent_id: progress.subagent_id.clone(),
            agent_type: progress.agent_type.clone(),
            title: progress.title.clone(),
            status: progress.status,
            tokens_used: progress.tokens_used,
            parent_id: lists::copy_text(&progress.parent_id),
            step: match &progress.step {
                Some(s) => Some(copy_step(s)),
                None => None,
            },
            tool_calls: copy_calls(&progress.tool_calls),
            reply: lists::copy_text(&progress.reply),
        }
    }

    /// Whether the subagent runs and is writing.
    pub fn has_live_stream(&self) -> (r: bool)
        ensures
            r == is_live(self@),
    {
        self.status == SubagentStatus::Running && match &self.step {
            Some(s) => s.stream.is_some(),
            None => false,
        }
    }

    /// Whether another subagent has started this one.
    pub fn is_child(&self) -> (r: bool)
        ensures
            r == (self@.parent is Some),
    {
        self.parent_id.is_some()
    }
}

/// The subagents of a conversation.
#[derive(Debug)]
pub struct SubagentFanoutModel {
    /// One node for each subagent, in the order in which they were first seen.
    pub nodes: Vec<SubagentNode>,
}

impl View for SubagentFanoutModel {
    type V = Seq<NodeModel>;

    open spec fn view(&self) -> Seq<NodeModel> {
        node_models(self.nodes@)
    }
}

fn position(nodes: &Vec<SubagentNode>, id: &str) -> (r: Option<usize>)
    ensures
        match r {
            Some(i) => i < nodes.len() && index_of(node_models(nodes@), id@, 0) == Some(i as int),
            None => index_of(node_models(nodes@), id@, 0) is None,
        },
{
    let mut i: usize = 0;
    while i < nodes.len()
        invariant
            i <= nodes.len(),
            index_of(node_models(nodes@), id@, 0) == index_of(
                node_models(nodes@),
                id@,
                i as int,
            ),
        decreases nodes.len() - i,
    {
        if text::same(nodes[i].subagent_id.as_str(), id) {
            return Some(i);
        }
        i += 1;
    }
    None
}

impl SubagentFanoutModel {
    /// Folds progress entries into one node for each subagent.
    pub fn from_entries(progresses: &[SubagentProgress]) -> (r: Self)
        ensures
            r@ == folded(entry_models(progresses@)),
    {
        let mut nodes: Vec<SubagentNode> = Vec::new();
        let ghost all = entry_models(progresses@);
        let mut i: usize = 0;
        assert(node_models(nodes@) =~= folded(all.take(0)));
        while i < progresses.len()
            invariant
                i <= progresses.len(),
                all == entry_models(progresses@),
                node_models(nodes@) == folded(all.take(i as int)),
            decreases progresses.len() - i,
        {
            let ghost before = node_models(nodes@);
            proof {
                assert(all.take(i + 1).drop_last() =~= all.take(i as int));
                assert(all.take(i + 1).last() == progresses[i as int]@);
            }
            let node = SubagentNode::from_progress(&progresses[i]);
            match position(&nodes, progresses[i].subagent_id.as_str()) {
                Some(at) => {
                    nodes.set(at, node);
                    assert(node_models(nodes@) =~= before.update(at as int, node@));
                },
                None => {
                    nodes.push(node);
                    assert(node_models(nodes@) =~= before.push(node@));
                },
            }
            i += 1;
        }
        assert(all.take(i as int) =~= all);
        SubagentFanoutModel { nodes }
    }

    /// How many subagents run.
    pub fn running_count(&self) -> (r: usize)
        ensures
            r == running(self@),
    {
        let mut n: usize = 0;
        let mut i: usize = 0;
        assert(self@.take(0) =~= Seq::empty());
        while i < self.nodes.len()
            invariant
                i <= self.nodes.len(),
                n == running(self@.take(i as int)),
                n <= i,
            decreases self.nodes.len() - i,
        {
            proof {
                assert(self@.take(i + 1).drop_last() =~= self@.take(i as int));
                assert(self@.take(i + 1).last() == self.nodes[i as int]@);
            }
            if self.nodes[i].status == SubagentStatus::Running {
                n += 1;
            }
            i += 1;
        }
        assert(self@.take(i as int) =~= self@);
        n
    }

    /// How many subagents there are.
    pub fn total_count(&self) -> (r: usize)
        ensures
            r == self@.len(),
    {
        self.nodes.len()
    }

    /// The node of a subagent.
    pub fn node(&self, subagent_id: &str) -> (r: Option<&SubagentNode>)
        ensures
            match (r, index_of(self@, subagent_id@, 0)) {
                (Some(n), Some(i)) => 0 <= i < self@.len() && *n == self.nodes@[i],
                (None, None) => true,
                _ => false,
            },
    {
        match position(&self.nodes, subagent_id) {
            Some(i) => Some(&self.nodes[i]),
            None => None,
        }
    }
}

impl Default for SubagentFanoutModel {
    fn default() -> (r: Self)
        ensures
            r@ == Seq::<NodeModel>::empty(),
    {
        let r = SubagentFanoutModel { nodes: Vec::new() };
        assert(r@ =~= Seq::<NodeModel>::empty());
        r
    }
}

// ---------------------------------------------------------------------------
// Laws
// ---------------------------------------------------------------------------

proof fn lemma_index_of(nodes: Seq<NodeModel>, id: Seq<char>, from: int)
    requires
        0 <= from <= nodes.len(),
    ensures
        match index_of(nodes, id, from) {
            Some(i) => from <= i < nodes.len() && nodes[i].id == id,
            None => forall|i: int| from <= i < nodes.len() ==> (#[trigger] nodes[i]).id != id,
        },
    decreases nodes.len() - from,
{
    if from < nodes.len() && nodes[from].id != id {
        lemma_index_of(nodes, id, from + 1);
    }
}

/// The list names a subagent once only.
pub open spec fn ids_are_distinct(nodes: Seq<NodeModel>) -> bool {
    forall|i: int, j: int|
        0 <= i < j < nodes.len() ==> (#[trigger] nodes[i]).id != (#[trigger] nodes[j]).id
}

/// Each subagent has one node.
pub proof fn law_one_node_for_each_subagent(entries: Seq<NodeModel>)
    ensures
        ids_are_distinct(folded(entries)),
    decreases entries.len(),
{
    if entries.len() > 0 {
        let rest = folded(entries.drop_last());
        law_one_node_for_each_subagent(entries.drop_last());
        lemma_index_of(rest, entries.last().id, 0);
    }
}

/// The last report of a subagent counts: its node is what was reported of it last,
/// and every subagent of which something was reported has a node.
pub proof fn law_last_report_counts(entries: Seq<NodeModel>, last: int)
    requires
        0 <= last < entries.len(),
        forall|i: int|
            last < i < entries.len() ==> (#[trigger] entries[i]).id != entries[last].id,
    ensures
        folded(entries).contains(entries[last]),
    decreases entries.len(),
{
    let shorter = entries.drop_last();
    let rest = folded(shorter);
    let new = entries.last();
    lemma_index_of(rest, new.id, 0);
    let all = folded(entries);
    if last == entries.len() - 1 {
        match index_of(rest, new.id, 0) {
            Some(i) => {
                assert(all[i] == new);
            },
            None => {
                assert(all[rest.len() as int] == new);
            },
        }
    } else {
        law_last_report_counts(shorter, last);
        let at = choose|i: int| 0 <= i < rest.len() && rest[i] == shorter[last];
        assert(all[at] == entries[last]);
    }
}

/// Every node is a report.
pub proof fn law_nodes_are_reports(entries: Seq<NodeModel>, at: int)
    requires
        0 <= at < folded(entries).len(),
    ensures
        entries.contains(folded(entries)[at]),
    decreases entries.len(),
{
    let shorter = entries.drop_last();
    let rest = folded(shorter);
    lemma_index_of(rest, entries.last().id, 0);
    if folded(entries)[at] == entries.last() {
        assert(entries[entries.len() - 1] == folded(entries)[at]);
    } else {
        law_nodes_are_reports(shorter, at);
        let i = choose|i: int| 0 <= i < shorter.len() && shorter[i] == rest[at];
        assert(entries[i] == rest[at]);
    }
}

/// A subagent keeps its place: more reports leave the subagents of the list where
/// they are and only append new ones.
pub proof fn law_nodes_keep_their_places(entries: Seq<NodeModel>, more: Seq<NodeModel>)
    ensures
        folded(entries).len() <= folded(entries + more).len(),
        forall|i: int|
            0 <= i < folded(entries).len() ==> (#[trigger] folded(entries + more)[i]).id
                == folded(entries)[i].id,
    decreases more.len(),
{
    if more.len() == 0 {
        assert(entries + more =~= entries);
    } else {
        law_nodes_keep_their_places(entries, more.drop_last());
        assert((entries + more).drop_last() =~= entries + more.drop_last());
        let rest = folded(entries + more.drop_last());
        lemma_index_of(rest, more.last().id, 0);
    }
}

// ---------------------------------------------------------------------------
// The subagent that is looked at
// ---------------------------------------------------------------------------

/// The subagent whose detail is shown; `None` shows the list.
#[derive(Debug)]
pub struct SelectedSubagent(pub Option<String>);

impl View for SelectedSubagent {
    type V = Option<Seq<char>>;

    open spec fn view(&self) -> Option<Seq<char>> {
        lists::text_of(self.0)
    }
}

impl SelectedSubagent {
    /// The subagent, by its id.
    pub fn get(&self) -> (r: Option<String>)
        ensures
            lists::text_of(r) == self@,
    {
        lists::copy_text(&self.0)
    }

    /// Looks at another subagent, or at the list.
    pub fn set(&mut self, id: Option<String>)
        ensures
            final(self)@ == lists::text_of(id),
    {
        self.0 = id;
    }
}

impl Default for SelectedSubagent {
    fn default() -> (r: Self)
        ensures
            r@ is None,
    {
        SelectedSubagent(None)
    }
}

/// A subagent counts as running exactly while its last report says so, and is live only
/// while it also writes.
pub proof fn law_running_subagents_are_counted(nodes: Seq<NodeModel>, n: NodeModel)
    ensures
        running(nodes.push(n)) == running(nodes) + (if n.status == SubagentStatus::Running {
            1int
        } else {
            0
        }),
        running(Seq::empty()) == 0,
        running(nodes) <= nodes.len(),
        n.status == SubagentStatus::Running && (n.step matches Some(s) && s.stream is Some)
            ==> is_live(n),
        is_live(n) ==> n.status == SubagentStatus::Running && n.step is Some,
        n.status != SubagentStatus::Running ==> !is_live(n),
        (n.step matches Some(s) && s.stream is None) ==> !is_live(n),
    decreases nodes.len(),
{
    assert(nodes.push(n).drop_last() =~= nodes);
    if nodes.len() > 0 {
        law_running_subagents_are_counted(nodes.drop_last(), nodes.last());
        assert(nodes.drop_last().push(nodes.last()) =~= nodes);
    }
}

/// Everything that is reported of a subagent is in the model of the report, and everything
/// that a node holds is in the model of the node.
pub proof fn law_nothing_of_a_report_is_dropped(p: SubagentProgress, n: SubagentNode)
    requires
        n@ == p@,
    ensures
        n.subagent_id@ == p.subagent_id@,
        n.agent_type@ == p.agent_type@,
        n.title@ == p.title@,
        n.status == p.status,
        n.tokens_used == p.tokens_used,
        lists::text_of(n.parent_id) == lists::text_of(p.parent_id),
        lists::text_of(n.reply) == lists::text_of(p.reply),
        n.tool_calls@.len() == p.tool_calls@.len(),
        n.step is Some <==> p.step is Some,
        n.step is Some ==> (n.step->0).label@ == (p.step->0).label@ && (n.step->0).status@
            == (p.step->0).status@ && lists::text_of((n.step->0).stream) == lists::text_of(
            (p.step->0).stream,
        ),
{
    assert(reports(n.tool_calls@).len() == n.tool_calls@.len());
    assert(reports(p.tool_calls@).len() == p.tool_calls@.len());
}

/// Two reports of one subagent leave one node, with what the second says; two subagents are
/// listed in the order in which they were first seen.
pub proof fn law_reports_are_folded(a: NodeModel, b: NodeModel)
    ensures
        a.id == b.id ==> folded(seq![a, b]) == seq![b],
        a.id != b.id ==> folded(seq![a, b]) == seq![a, b],
        folded(seq![a]) == seq![a],
{
    reveal_with_fuel(folded, 3);
    assert(seq![a, b].drop_last() =~= seq![a]);
    assert(seq![a].drop_last() =~= Seq::empty());
    let empty = Seq::<NodeModel>::empty();
    assert(empty.push(a) =~= seq![a]);
    reveal_with_fuel(index_of, 2);
    if a.id == b.id {
        assert(index_of(seq![a], b.id, 0) == Some(0int));
        assert(seq![a].update(0, b) =~= seq![b]);
    } else {
        assert(index_of(seq![a], b.id, 0) is None);
        assert(seq![a].push(b) =~= seq![a, b]);
    }
}

} // verus!
