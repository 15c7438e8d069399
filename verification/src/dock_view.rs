//! What the panels of the stack show.
//!
//! Each panel is described as plain values, which a window only has to draw.

use vstd::prelude::*;
use vstd::string::*;

use crate::fanout;
use crate::fanout::{
    NodeModel,
    SelectedSubagent,
    SubagentFanoutModel,
    SubagentNode,
    SubagentStatus,
};
use crate::lists;
use crate::right_dock;
use crate::right_dock::{
    ActiveThread,
    DockModule,
    DockState,
    PlanEntry,
    PlanEntryStatus,
    VibedevRightDock,
};
use crate::text;

verus! {

/// A symbol.
#[derive(Clone, Copy, Debug, PartialEq, Eq, Structural)]
pub enum Symbol {
    ArrowCircle,
    Check,
    XCircle,
    Circle,
    TodoProgress,
    TodoComplete,
    TodoPending,
    ChevronDown,
    ChevronUp,
}

/// The role of a colour.
#[derive(Clone, Copy, Debug, PartialEq, Eq, Structural)]
pub enum Tint {
    Accent,
    Success,
    Failure,
    Muted,
}

/// How the state of a subagent is shown.
pub open spec fn status_sign(s: SubagentStatus) -> (Symbol, Tint) {
    match s {
        SubagentStatus::Running => (Symbol::ArrowCircle, Tint::Accent),
        SubagentStatus::Done => (Symbol::Check, Tint::Success),
        SubagentStatus::Failed => (Symbol::XCircle, Tint::Failure),
        SubagentStatus::Queued => (Symbol::Circle, Tint::Muted),
    }
}

/// The word for the state of a subagent.
pub open spec fn status_word(s: SubagentStatus) -> Seq<char> {
    match s {
        SubagentStatus::Running => "运行中"@,
        SubagentStatus::Done => "已完成"@,
        SubagentStatus::Failed => "失败"@,
        SubagentStatus::Queued => "排队中"@,
    }
}

/// How the state of a step of a plan is shown.
pub open spec fn plan_sign(s: PlanEntryStatus) -> (Symbol, Tint) {
    match s {
        PlanEntryStatus::InProgress => (Symbol::TodoProgress, Tint::Accent),
        PlanEntryStatus::Completed => (Symbol::TodoComplete, Tint::Success),
        PlanEntryStatus::Pending => (Symbol::TodoPending, Tint::Muted),
    }
}

fn sign_of(s: SubagentStatus) -> (r: (Symbol, Tint))
    ensures
        r == status_sign(s),
{
    match s {
        SubagentStatus::Running => (Symbol::ArrowCircle, Tint::Accent),
        SubagentStatus::Done => (Symbol::Check, Tint::Success),
        SubagentStatus::Failed => (Symbol::XCircle, Tint::Failure),
        SubagentStatus::Queued => (Symbol::Circle, Tint::Muted),
    }
}

fn word_of(s: SubagentStatus) -> (r: &'static str)
    ensures
        r@ == status_word(s),
{
    match s {
        SubagentStatus::Running => "运行中",
        SubagentStatus::Done => "已完成",
        SubagentStatus::Failed => "失败",
        SubagentStatus::Queued => "排队中",
    }
}

fn plan_sign_of(s: PlanEntryStatus) -> (r: (Symbol, Tint))
    ensures
        r == plan_sign(s),
{
    match s {
        PlanEntryStatus::InProgress => (Symbol::TodoProgress, Tint::Accent),
        PlanEntryStatus::Completed => (Symbol::TodoComplete, Tint::Success),
        PlanEntryStatus::Pending => (Symbol::TodoPending, Tint::Muted),
    }
}

/// How the use of tokens is shown.
pub open spec fn tokens_text(tokens: Option<u64>) -> Option<Seq<char>> {
    match tokens {
        Some(n) => Some(text::decimal_of(n as nat) + " tok"@),
        None => None,
    }
}

fn tokens_label(tokens: Option<u64>) -> (r: Option<String>)
    ensures
        lists::text_of(r) == tokens_text(tokens),
{
    match tokens {
        Some(n) => Some(text::join(text::decimal(n).as_str(), " tok")),
        None => None,
    }
}

/// So many of so many, and what they are.
pub open spec fn ratio_text(part: nat, whole: nat, what: Seq<char>) -> Seq<char> {
    text::decimal_of(part) + "/"@ + text::decimal_of(whole) + what
}

fn ratio(part: usize, whole: usize, what: &str) -> (r: String)
    ensures
        r@ == ratio_text(part as nat, whole as nat, what@),
{
    let a = text::join(text::decimal(part as u64).as_str(), "/");
    let b = text::join(a.as_str(), text::decimal(whole as u64).as_str());
    text::join(b.as_str(), what)
}

// ---------------------------------------------------------------------------
// The subagents
// ---------------------------------------------------------------------------

/// A line of the list of subagents.
pub struct ExecutionRow {
    /// The subagent that a click looks at.
    pub id: String,
    pub symbol: Symbol,
    pub tint: Tint,
    pub agent_type: String,
    pub title: String,
    pub tokens: Option<String>,
    /// A line is drawn below.
    pub border: bool,
    /// It is indented below the subagent that has started it.
    pub indented: bool,
}

/// The line shows the node.
pub open spec fn row_shows(r: ExecutionRow, n: NodeModel, is_last: bool) -> bool {
    &&& r.id@ == n.id
    &&& (r.symbol, r.tint) == status_sign(n.status)
    &&& r.agent_type@ == n.agent_type
    &&& r.title@ == n.title
    &&& lists::text_of(r.tokens) == tokens_text(n.tokens_used)
    &&& r.border == !is_last
    &&& r.indented == (n.parent is Some)
}

/// The detail of a subagent.
pub struct SubagentDetail {
    pub agent_type: String,
    pub title: String,
    pub symbol: Symbol,
    pub tint: Tint,
    pub status: String,
    pub tokens: Option<String>,
    /// The label of its step, or that there is none.
    pub step: String,
    /// What it has written, to be set as text with markup.
    pub stream: Option<String>,
    /// The text is new and has to be set again.
    pub rebuild: bool,
}

/// What a subagent has written in its step.
pub open spec fn stream_of(n: NodeModel) -> Option<Seq<char>> {
    match n.step {
        Some(step) => step.stream,
        None => None,
    }
}

/// The detail shows the node, where the text was last set from `cached`.
pub open spec fn detail_shows(
    d: SubagentDetail,
    n: NodeModel,
    cached: Option<Seq<char>>,
) -> bool {
    &&& d.agent_type@ == n.agent_type
    &&& d.title@ == n.title
    &&& (d.symbol, d.tint) == status_sign(n.status)
    &&& d.status@ == status_word(n.status)
    &&& lists::text_of(d.tokens) == tokens_text(n.tokens_used)
    &&& d.step@ == match n.step {
        Some(step) => step.label,
        None => "暂无步骤详情"@,
    }
    &&& lists::text_of(d.stream) == stream_of(n)
    &&& d.rebuild == (stream_of(n) is Some && cached != stream_of(n))
}

/// What the execution panel shows.
pub enum ExecutionView {
    /// Nothing, for this reason.
    Empty(String),
    /// One subagent.
    Detail(SubagentDetail),
    /// All of them, with their count.
    List { header: String, rows: Vec<ExecutionRow> },
}

/// The subagent of the list that is looked at; one that is gone does not count.
pub open spec fn looked_at(nodes: Seq<NodeModel>, selected: Option<Seq<char>>) -> Option<int> {
    match selected {
        Some(id) => fanout::index_of(nodes, id, 0),
        None => None,
    }
}

/// The lines show the nodes.
pub open spec fn rows_show(rows: Seq<ExecutionRow>, nodes: Seq<NodeModel>) -> bool {
    &&& rows.len() == nodes.len()
    &&& forall|i: int|
        0 <= i < rows.len() ==> row_shows(#[trigger] rows[i], nodes[i], i == rows.len() - 1)
}

/// What the execution panel is to show of a conversation.
pub open spec fn execution_shows(
    v: ExecutionView,
    thread: Option<&ActiveThread>,
    selected: Option<Seq<char>>,
    cached: Option<Seq<char>>,
) -> bool {
    match thread {
        None => v matches ExecutionView::Empty(why) && why@ == "无活跃会话"@,
        Some(t) => {
            let nodes = right_dock::nodes_of(*t);
            if nodes.len() == 0 {
                v matches ExecutionView::Empty(why) && why@ == "暂无子任务执行"@
            } else {
                match looked_at(nodes, selected) {
                    Some(i) => v matches ExecutionView::Detail(d) && detail_shows(
                        d,
                        nodes[i],
                        cached,
                    ),
                    None => v matches ExecutionView::List { header, rows } && header@
                        == ratio_text(fanout::running(nodes), nodes.len(), " 运行中"@)
                        && rows_show(rows@, nodes),
                }
            }
        },
    }
}

/// The text that the detail view is set from afterwards: that of the subagent that is
/// looked at; where none is, the last one stays.
pub open spec fn next_cached(
    thread: Option<&ActiveThread>,
    selected: Option<Seq<char>>,
    cached: Option<Seq<char>>,
) -> Option<Seq<char>> {
    match thread {
        None => cached,
        Some(t) => {
            let nodes = right_dock::nodes_of(*t);
            match looked_at(nodes, selected) {
                Some(i) => stream_of(nodes[i]),
                None => cached,
            }
        },
    }
}

fn row_of(n: &SubagentNode, is_last: bool) -> (r: ExecutionRow)
    ensures
        row_shows(r, n@, is_last),
{
    let (symbol, tint) = sign_of(n.status);
    ExecutionRow {
        id: n.subagent_id.clone(),
        symbol,
        tint,
        agent_type: n.agent_type.clone(),
        title: n.title.clone(),
        tokens: tokens_label(n.tokens_used),
        border: !is_last,
        indented: n.is_child(),
    }
}

/// The detail of a subagent; `cached` is the text that was set last.
pub fn render_subagent_detail(n: &SubagentNode, cached: &Option<String>) -> (r: SubagentDetail)
    ensures
        detail_shows(r, n@, lists::text_of(*cached)),
{
    let (symbol, tint) = sign_of(n.status);
    let step = match &n.step {
        Some(s) => s.label.clone(),
        None => "暂无步骤详情".to_owned(),
    };
    let stream = match &n.step {
        Some(s) => lists::copy_text(&s.stream),
        None => None,
    };
    let rebuild = match (&stream, cached) {
        (Some(text), Some(old_text)) => !text::same(text.as_str(), old_text.as_str()),
        (Some(_), None) => true,
        (None, _) => false,
    };
    SubagentDetail {
        agent_type: n.agent_type.clone(),
        title: n.title.clone(),
        symbol,
        tint,
        status: word_of(n.status).to_owned(),
        tokens: tokens_label(n.tokens_used),
        step,
        stream,
        rebuild,
    }
}

fn rows_of(nodes: &Vec<SubagentNode>) -> (r: Vec<ExecutionRow>)
    ensures
        rows_show(r@, fanout::node_models(nodes@)),
{
    let mut r: Vec<ExecutionRow> = Vec::new();
    let ghost all = fanout::node_models(nodes@);
    let mut i: usize = 0;
    while i < nodes.len()
        invariant
            i <= nodes.len(),
            r.len() == i,
            all == fanout::node_models(nodes@),
            forall|x: int|
                0 <= x < i ==> row_shows(#[trigger] r[x], all[x], x == nodes.len() - 1),
        decreases nodes.len() - i,
    {
        r.push(row_of(&nodes[i], i == nodes.len() - 1));
        i += 1;
    }
    r
}

impl VibedevRightDock {
    /// What the execution panel shows of a conversation: one subagent where one of it
    /// is looked at, else all.
    pub fn render_execution_panel(
        &mut self,
        thread: Option<&ActiveThread>,
        selected: &SelectedSubagent,
    ) -> (r: ExecutionView)
        requires
            old(self).wf(),
        ensures
            final(self).wf(),
            final(self)@ == (DockState {
                detail: next_cached(thread, selected@, old(self)@.detail),
                ..old(self)@
            }),
            execution_shows(r, thread, selected@, old(self)@.detail),
    {
        let t = match thread {
            None => return ExecutionView::Empty("无活跃会话".to_owned()),
            Some(t) => t,
        };
        let progresses = right_dock::collect_progresses(&t.entries);
        let model = SubagentFanoutModel::from_entries(progresses.as_slice());
        let ghost nodes = right_dock::nodes_of(*t);
        assert(model@ == nodes);
        assert(nodes.len() == model.nodes.len());
        if model.nodes.len() == 0 {
            proof {
                assert(nodes.len() == 0);
                if let Some(id) = selected@ {
                    assert(fanout::index_of(nodes, id, 0) is None);
                }
            }
            return ExecutionView::Empty("暂无子任务执行".to_owned());
        }
        match &selected.0 {
            Some(id) => match model.node(id.as_str()) {
                Some(node) => {
                    let d = render_subagent_detail(node, &self.detail);
                    self.detail = lists::copy_text(&d.stream);
                    return ExecutionView::Detail(d);
                },
                None => {},
            },
            None => {},
        }
        ExecutionView::List {
            header: ratio(model.running_count(), model.total_count(), " 运行中"),
            rows: rows_of(&model.nodes),
        }
    }
}

// ---------------------------------------------------------------------------
// The plan
// ---------------------------------------------------------------------------

/// A line of a plan.
pub struct PlanRow {
    pub symbol: Symbol,
    pub tint: Tint,
    /// Text with markup.
    pub content: String,
    /// A line is drawn below.
    pub border: bool,
}

/// What the plan panel shows.
pub enum PlanView {
    /// Nothing, for this reason.
    Empty(String),
    /// The steps, with the count of those that are done.
    List { header: String, rows: Vec<PlanRow> },
}

/// The lines show the steps.
pub open spec fn plan_rows_show(rows: Seq<PlanRow>, plan: Seq<PlanEntry>) -> bool {
    &&& rows.len() == plan.len()
    &&& forall|i: int|
        0 <= i < rows.len() ==> {
            &&& ((#[trigger] rows[i]).symbol, rows[i].tint) == plan_sign(plan[i].status)
            &&& rows[i].content@ == plan[i].content@
            &&& rows[i].border == (i != rows.len() - 1)
        }
}

/// What the plan panel is to show of a conversation.
pub open spec fn plan_shows(v: PlanView, thread: Option<&ActiveThread>) -> bool {
    match thread {
        None => v matches PlanView::Empty(why) && why@ == "无活跃会话"@,
        Some(t) => if t.plan@.len() == 0 {
            v matches PlanView::Empty(why) && why@ == "暂无计划"@
        } else {
            v matches PlanView::List { header, rows } && header@ == ratio_text(
                right_dock::completed(t.plan@),
                t.plan@.len(),
                " 完成"@,
            ) && plan_rows_show(rows@, t.plan@)
        },
    }
}

/// What the plan panel shows of a conversation.
pub fn render_plan_panel(thread: Option<&ActiveThread>) -> (r: PlanView)
    ensures
        plan_shows(r, thread),
{
    let t = match thread {
        None => return PlanView::Empty("无活跃会话".to_owned()),
        Some(t) => t,
    };
    if t.plan.len() == 0 {
        return PlanView::Empty("暂无计划".to_owned());
    }
    let mut rows: Vec<PlanRow> = Vec::new();
    let mut done: usize = 0;
    let mut i: usize = 0;
    let ghost plan = t.plan@;
    assert(plan.take(0) =~= Seq::empty());
    while i < t.plan.len()
        invariant
            i <= t.plan.len(),
            plan == t.plan@,
            rows.len() == i,
            done <= i,
            done == right_dock::completed(plan.take(i as int)),
            forall|x: int|
                0 <= x < i ==> {
                    &&& ((#[trigger] rows[x]).symbol, rows[x].tint) == plan_sign(plan[x].status)
                    &&& rows[x].content@ == plan[x].content@
                    &&& rows[x].border == (x != plan.len() - 1)
                },
        decreases t.plan.len() - i,
    {
        proof {
            assert(plan.take(i + 1).drop_last() =~= plan.take(i as int));
            assert(plan.take(i + 1).last() == plan[i as int]);
        }
        if t.plan[i].status == PlanEntryStatus::Completed {
            done += 1;
        }
        let (symbol, tint) = plan_sign_of(t.plan[i].status);
        rows.push(
            PlanRow {
                symbol,
                tint,
                content: t.plan[i].content.clone(),
                border: i != t.plan.len() - 1,
            },
        );
        i += 1;
    }
    assert(plan.take(i as int) =~= plan);
    PlanView::List { header: ratio(done, t.plan.len(), " 完成"), rows }
}

// ---------------------------------------------------------------------------
// A panel of the stack
// ---------------------------------------------------------------------------

/// The body of a panel.
pub enum DockBody {
    /// The tree of files.
    Files,
    /// The pane in which files are opened.
    FilePane { pane: u64 },
    /// The pane in which changes are opened.
    ChangesPane { pane: u64 },
    /// The subagents.
    Execution(ExecutionView),
    /// The plan.
    Plan(PlanView),
    /// The terminals.
    Terminal,
    /// It is being loaded.
    Loading,
}

/// A panel of the stack.
pub struct DockPanel {
    pub element_id: &'static str,
    pub title: &'static str,
    /// Tells the buttons of the panels apart.
    pub index: usize,
    pub fold_symbol: Symbol,
    pub fold_id: &'static str,
    /// There is a button for a new terminal.
    pub new_terminal: bool,
    /// The body is hidden.
    pub collapsed: bool,
    pub body: DockBody,
}

/// The pane in which files are opened now: the one that was active last in the middle,
/// or, where there is none, the one of the beginning.
pub open spec fn current_file_pane(last_active: Option<u64>, captured: u64) -> u64 {
    match last_active {
        Some(p) => p,
        None => captured,
    }
}

/// The pane in which files are opened now.
pub fn file_pane(last_active: Option<u64>, captured: u64) -> (r: u64)
    ensures
        r == current_file_pane(last_active, captured),
{
    match last_active {
        Some(p) => p,
        None => captured,
    }
}

/// The body is that of the module.
pub open spec fn body_shows(
    b: DockBody,
    m: DockModule,
    s: DockState,
    last_active: Option<u64>,
    thread: Option<&ActiveThread>,
    selected: Option<Seq<char>>,
) -> bool {
    match m {
        DockModule::Files => if s.files_loaded {
            b is Files
        } else {
            b is Loading
        },
        DockModule::File => b == (DockBody::FilePane {
            pane: current_file_pane(last_active, s.center_pane),
        }),
        DockModule::Changes => b == (DockBody::ChangesPane { pane: s.changes_pane }),
        DockModule::Execution => b matches DockBody::Execution(v) && execution_shows(
            v,
            thread,
            selected,
            s.detail,
        ),
        DockModule::Plan => b matches DockBody::Plan(v) && plan_shows(v, thread),
        DockModule::Terminal => if s.terminal_loaded {
            b is Terminal
        } else {
            b is Loading
        },
    }
}

/// The panel is that of the module.
pub open spec fn panel_shows(
    p: DockPanel,
    m: DockModule,
    s: DockState,
    last_active: Option<u64>,
    thread: Option<&ActiveThread>,
    selected: Option<Seq<char>>,
) -> bool {
    &&& p.element_id@ == right_dock::element_id_of(m)
    &&& p.title@ == right_dock::title_of(m)
    &&& p.index == right_dock::place(m)
    &&& p.collapsed == s.folded.contains(m)
    &&& p.fold_symbol == (if p.collapsed {
        Symbol::ChevronDown
    } else {
        Symbol::ChevronUp
    })
    &&& p.fold_id@ == (if p.collapsed {
        "vibedev-dpanel-expand"@
    } else {
        "vibedev-dpanel-collapse"@
    })
    &&& p.new_terminal == (m == DockModule::Terminal)
    &&& body_shows(p.body, m, s, last_active, thread, selected)
}

/// The stack after a panel was drawn: drawing the execution panel may set the text of
/// the detail view.
pub open spec fn after_drawing(
    s: DockState,
    m: DockModule,
    thread: Option<&ActiveThread>,
    selected: Option<Seq<char>>,
) -> DockState {
    if m == DockModule::Execution {
        DockState { detail: next_cached(thread, selected, s.detail), ..s }
    } else {
        s
    }
}

/// An entry of the menu of panels.
pub struct MenuEntry {
    pub module: DockModule,
    pub title: &'static str,
    pub checked: bool,
}

impl VibedevRightDock {
    /// One panel of the stack; `last_active` is the pane that was active last in the
    /// middle.
    pub fn render_dpanel(
        &mut self,
        module: DockModule,
        last_active: Option<u64>,
        thread: Option<&ActiveThread>,
        selected: &SelectedSubagent,
    ) -> (r: DockPanel)
        requires
            old(self).wf(),
        ensures
            final(self).wf(),
            final(self)@ == after_drawing(old(self)@, module, thread, selected@),
            panel_shows(r, module, old(self)@, last_active, thread, selected@),
    {
        let collapsed = self.is_collapsed(module);
        let body = match module {
            DockModule::Files => if self.files_loaded {
                DockBody::Files
            } else {
                DockBody::Loading
            },
            DockModule::File => DockBody::FilePane {
                pane: file_pane(last_active, self.center_pane),
            },
            DockModule::Changes => DockBody::ChangesPane { pane: self.changes_pane },
            DockModule::Execution => DockBody::Execution(
                self.render_execution_panel(thread, selected),
            ),
            DockModule::Plan => DockBody::Plan(render_plan_panel(thread)),
            DockModule::Terminal => if self.terminal_loaded {
                DockBody::Terminal
            } else {
                DockBody::Loading
            },
        };
        DockPanel {
            element_id: module.element_id(),
            title: module.title(),
            index: module.index(),
            fold_symbol: if collapsed {
                Symbol::ChevronDown
            } else {
                Symbol::ChevronUp
            },
            fold_id: if collapsed {
                "vibedev-dpanel-expand"
            } else {
                "vibedev-dpanel-collapse"
            },
            new_terminal: module == DockModule::Terminal,
            collapsed,
            body,
        }
    }

    /// The stack: the panel of each module that is shown, in order.
    pub fn render(
        &mut self,
        last_active: Option<u64>,
        thread: Option<&ActiveThread>,
        selected: &SelectedSubagent,
    ) -> (r: Vec<DockPanel>)
        requires
            old(self).wf(),
        ensures
            final(self).wf(),
            final(self)@ == (if old(self)@.on.contains(DockModule::Execution) {
                after_drawing(old(self)@, DockModule::Execution, thread, selected@)
            } else {
                old(self)@
            }),
            r.len() == right_dock::in_order(old(self)@.on).len(),
            forall|i: int|
                0 <= i < r.len() ==> panel_shows(
                    #[trigger] r[i],
                    right_dock::in_order(old(self)@.on)[i],
                    old(self)@,
                    last_active,
                    thread,
                    selected@,
                ),
    {
        let ghost first = self@;
        let modules = self.enabled.clone();
        let ghost order = right_dock::in_order(first.on);
        let mut r: Vec<DockPanel> = Vec::new();
        let mut i: usize = 0;
        proof {
            right_dock::law_modules_are_shown_in_order(first.on);
            assert(modules@ =~= order);
        }
        while i < modules.len()
            invariant
                i <= modules.len(),
                self.wf(),
                modules@ == order,
                r.len() == i,
                forall|a: int, b: int|
                    0 <= a < b < order.len() ==> right_dock::place(#[trigger] order[a])
                        < right_dock::place(#[trigger] order[b]),
                forall|x: int|
                    0 <= x < i ==> panel_shows(
                        #[trigger] r[x],
                        order[x],
                        first,
                        last_active,
                        thread,
                        selected@,
                    ),
                order.take(i as int).contains(DockModule::Execution) ==> self@ == after_drawing(
                    first,
                    DockModule::Execution,
                    thread,
                    selected@,
                ),
                !order.take(i as int).contains(DockModule::Execution) ==> self@ == first,
            decreases modules.len() - i,
        {
            let ghost taken = order.take(i as int);
            let ghost before = self@;
            let module = modules[i];
            let panel = self.render_dpanel(module, last_active, thread, selected);
            proof {
                let longer = order.take(i + 1);
                assert(longer =~= taken.push(module));
                assert(longer[i as int] == module);
                if taken.contains(DockModule::Execution) {
                    let k = choose|k: int|
                        0 <= k < taken.len() && taken[k] == DockModule::Execution;
                    assert(order[k] == DockModule::Execution);
                    assert(right_dock::place(order[k]) < right_dock::place(order[i as int]));
                    assert(longer[k] == DockModule::Execution);
                    assert(before == after_drawing(
                        first,
                        DockModule::Execution,
                        thread,
                        selected@,
                    ));
                    assert(module != DockModule::Execution);
                    assert(panel_shows(panel, module, first, last_active, thread, selected@));
                } else {
                    assert(before == first);
                    if longer.contains(DockModule::Execution) && module
                        != DockModule::Execution {
                        let k = choose|k: int|
                            0 <= k < longer.len() && longer[k] == DockModule::Execution;
                        assert(taken[k] == DockModule::Execution);
                    }
                }
            }
            r.push(panel);
            i += 1;
        }
        proof {
            assert(order.take(i as int) =~= order);
            assert(order.to_set().contains(DockModule::Execution) <==> order.contains(
                DockModule::Execution,
            ));
        }
        r
    }

    /// The menu of panels: all modules, those that are shown with a mark.
    pub fn render_panels_menu(&self) -> (r: Vec<MenuEntry>)
        ensures
            r.len() == right_dock::all().len(),
            forall|i: int|
                0 <= i < r.len() ==> {
                    &&& (#[trigger] r[i]).module == right_dock::all()[i]
                    &&& r[i].title@ == right_dock::title_of(right_dock::all()[i])
                    &&& r[i].checked == self@.on.contains(right_dock::all()[i])
                },
    {
        let every = DockModule::all_modules();
        let mut r: Vec<MenuEntry> = Vec::new();
        let mut i: usize = 0;
        while i < every.len()
            invariant
                i <= every.len(),
                every@ == right_dock::all(),
                r.len() == i,
                forall|x: int|
                    0 <= x < i ==> {
                        &&& (#[trigger] r[x]).module == every[x]
                        &&& r[x].title@ == right_dock::title_of(every[x])
                        &&& r[x].checked == self@.on.contains(every[x])
                    },
            decreases every.len() - i,
        {
            r.push(
                MenuEntry {
                    module: every[i],
                    title: every[i].title(),
                    checked: self.is_enabled(every[i]),
                },
            );
            i += 1;
        }
        r
    }
}

/// A subagent that is looked at and has gone shows the list again.
pub proof fn law_stale_selection_shows_list(
    v: ExecutionView,
    t: ActiveThread,
    id: Seq<char>,
    cached: Option<Seq<char>>,
)
    requires
        right_dock::nodes_of(t).len() > 0,
        forall|i: int|
            0 <= i < right_dock::nodes_of(t).len() ==> (#[trigger] right_dock::nodes_of(t)[i]).id
                != id,
        execution_shows(v, Some(&t), Some(id), cached),
    ensures
        v is List,
        next_cached(Some(&t), Some(id), cached) == cached,
{
    lemma_absent(right_dock::nodes_of(t), id, 0);
}

proof fn lemma_absent(nodes: Seq<NodeModel>, id: Seq<char>, from: int)
    requires
        0 <= from <= nodes.len(),
        forall|i: int| 0 <= i < nodes.len() ==> (#[trigger] nodes[i]).id != id,
    ensures
        fanout::index_of(nodes, id, from) is None,
    decreases nodes.len() - from,
{
    if from < nodes.len() {
        lemma_absent(nodes, id, from + 1);
    }
}

/// A subagent that is looked at and is there is shown in detail, with its own type, title,
/// state and what it has written.
pub proof fn law_selected_subagent_is_shown(
    v: ExecutionView,
    t: ActiveThread,
    at: int,
    cached: Option<Seq<char>>,
)
    requires
        0 <= at < right_dock::nodes_of(t).len(),
        execution_shows(v, Some(&t), Some(right_dock::nodes_of(t)[at].id), cached),
    ensures
        v matches ExecutionView::Detail(d) && ({
            let n = right_dock::nodes_of(t)[at];
            &&& d.agent_type@ == n.agent_type
            &&& d.title@ == n.title
            &&& lists::text_of(d.stream) == (if n.step is Some {
                (n.step->0).stream
            } else {
                None
            })
            &&& n.step is Some ==> d.step@ == (n.step->0).label
            &&& n.tokens_used is None ==> d.tokens is None
            &&& n.tokens_used is Some ==> (d.tokens matches Some(s) && s@ == text::decimal_of(
                n.tokens_used->0 as nat,
            ) + " tok"@)
        }),
        next_cached(Some(&t), Some(right_dock::nodes_of(t)[at].id), cached) == (
        if right_dock::nodes_of(t)[at].step is Some {
            (right_dock::nodes_of(t)[at].step->0).stream
        } else {
            None
        }),
{
    let nodes = right_dock::nodes_of(t);
    fanout::law_one_node_for_each_subagent(right_dock::progresses(t.entries@));
    lemma_present(nodes, 0, at);
}

proof fn lemma_present(nodes: Seq<NodeModel>, from: int, at: int)
    requires
        0 <= from <= at < nodes.len(),
        fanout::ids_are_distinct(nodes),
    ensures
        fanout::index_of(nodes, nodes[at].id, from) == Some(at),
    decreases at - from,
{
    if from < at {
        assert(nodes[from].id != nodes[at].id);
        lemma_present(nodes, from + 1, at);
    }
}

/// Where none is looked at all subagents are listed, each with its own id, type and title,
/// under how many of them run.
pub proof fn law_all_subagents_are_listed(
    v: ExecutionView,
    t: ActiveThread,
    cached: Option<Seq<char>>,
    i: int,
)
    requires
        0 <= i < right_dock::nodes_of(t).len(),
        execution_shows(v, Some(&t), None, cached),
    ensures
        v matches ExecutionView::List { header, rows } && rows@.len() == right_dock::nodes_of(
            t,
        ).len() && header@ == text::decimal_of(fanout::running(right_dock::nodes_of(t))) + "/"@
            + text::decimal_of(right_dock::nodes_of(t).len()) + " 运行中"@ && rows@[i].id@
            == right_dock::nodes_of(t)[i].id && rows@[i].title@ == right_dock::nodes_of(t)[i].title
            && rows@[i].agent_type@ == right_dock::nodes_of(t)[i].agent_type && (rows@[i].indented
            <==> right_dock::nodes_of(t)[i].parent is Some) && (rows@[i].border <==> i
            < rows@.len() - 1),
{
    if let ExecutionView::List { header, rows } = v {
        assert(row_shows(rows@[i], right_dock::nodes_of(t)[i], i == rows@.len() - 1));
    }
}

/// Each state has its own sign and its own word.
pub proof fn law_states_have_their_signs(a: SubagentStatus, b: SubagentStatus)
    ensures
        status_sign(SubagentStatus::Running) == (Symbol::ArrowCircle, Tint::Accent),
        status_sign(SubagentStatus::Done) == (Symbol::Check, Tint::Success),
        status_sign(SubagentStatus::Failed) == (Symbol::XCircle, Tint::Failure),
        status_sign(SubagentStatus::Queued) == (Symbol::Circle, Tint::Muted),
        plan_sign(PlanEntryStatus::InProgress) == (Symbol::TodoProgress, Tint::Accent),
        plan_sign(PlanEntryStatus::Completed) == (Symbol::TodoComplete, Tint::Success),
        plan_sign(PlanEntryStatus::Pending) == (Symbol::TodoPending, Tint::Muted),
        status_sign(a) == status_sign(b) ==> a == b,
        status_word(SubagentStatus::Running) == "运行中"@,
        status_word(SubagentStatus::Done) == "已完成"@,
        status_word(SubagentStatus::Failed) == "失败"@,
        status_word(SubagentStatus::Queued) == "排队中"@,
{
}

/// A plan is shown step by step, under how many of its steps are done.
pub proof fn law_plan_is_shown_step_by_step(v: PlanView, t: ActiveThread, i: int)
    requires
        plan_shows(v, Some(&t)),
        0 <= i < t.plan@.len(),
    ensures
        v matches PlanView::List { header, rows } && rows@.len() == t.plan@.len() && header@
            == text::decimal_of(right_dock::completed(t.plan@)) + "/"@ + text::decimal_of(
            t.plan@.len(),
        ) + " 完成"@ && rows@[i].content@ == t.plan@[i].content@ && (t.plan@[i].status
            == PlanEntryStatus::Completed <==> rows@[i].symbol == Symbol::TodoComplete) && (
        rows@[i].border <==> i < rows@.len() - 1),
{
    if let PlanView::List { header, rows } = v {
        assert(rows@[i].content@ == t.plan@[i].content@);
    }
}

/// The text of the detail view is set anew exactly where there is one that was not set yet.
pub proof fn law_text_is_set_when_it_changes(
    d: SubagentDetail,
    n: NodeModel,
    cached: Option<Seq<char>>,
)
    requires
        detail_shows(d, n, cached),
    ensures
        d.stream is None ==> !d.rebuild,
        d.stream is Some && cached is None ==> d.rebuild,
        d.stream is Some && cached is Some ==> (d.rebuild <==> (d.stream->0)@ != cached->0),
{
}

/// A panel shows what belongs to its module, and says so while that is loaded; it is folded
/// exactly where its module is.
pub proof fn law_panels_show_their_module(
    p: DockPanel,
    m: DockModule,
    s: DockState,
    last_active: Option<u64>,
    thread: Option<&ActiveThread>,
    selected: Option<Seq<char>>,
)
    requires
        panel_shows(p, m, s, last_active, thread, selected),
    ensures
        p.collapsed <==> s.folded.contains(m),
        p.new_terminal <==> m == DockModule::Terminal,
        m == DockModule::Files ==> (if s.files_loaded {
            p.body is Files
        } else {
            p.body is Loading
        }),
        m == DockModule::Terminal ==> (if s.terminal_loaded {
            p.body is Terminal
        } else {
            p.body is Loading
        }),
        m == DockModule::Changes ==> p.body == (DockBody::ChangesPane { pane: s.changes_pane }),
        m == DockModule::File && last_active is Some ==> p.body == (DockBody::FilePane {
            pane: last_active->0,
        }),
        m == DockModule::File && last_active is None ==> p.body == (DockBody::FilePane {
            pane: s.center_pane,
        }),
        m == DockModule::Execution ==> p.body is Execution,
        m == DockModule::Plan ==> p.body is Plan,
        p.collapsed ==> p.fold_symbol == Symbol::ChevronDown,
        !p.collapsed ==> p.fold_symbol == Symbol::ChevronUp,
{
}

/// Drawing a panel changes nothing but the text that the execution panel keeps.
pub proof fn law_drawing_keeps_the_dock(
    s: DockState,
    m: DockModule,
    thread: Option<&ActiveThread>,
    selected: Option<Seq<char>>,
)
    ensures
        m != DockModule::Execution ==> after_drawing(s, m, thread, selected) == s,
        (DockState { detail: s.detail, ..after_drawing(s, m, thread, selected) }) == s,
        thread is None && m == DockModule::Execution ==> after_drawing(
            s,
            m,
            thread,
            selected,
        ).detail == next_cached(None, selected, s.detail),
{
}

/// A subagent's line and its detail view show its state and what it has used.
pub proof fn law_state_and_use_are_shown(
    r: ExecutionRow,
    d: SubagentDetail,
    n: NodeModel,
    is_last: bool,
    cached: Option<Seq<char>>,
    used: u64,
)
    requires
        row_shows(r, n, is_last),
        detail_shows(d, n, cached),
    ensures
        (r.symbol == Symbol::ArrowCircle && d.symbol == Symbol::ArrowCircle && r.tint
            == Tint::Accent && d.status@ == "运行中"@) <==> n.status == SubagentStatus::Running,
        (r.symbol == Symbol::Check && d.symbol == Symbol::Check && r.tint == Tint::Success
            && d.tint == Tint::Success) <==> n.status == SubagentStatus::Done,
        (r.symbol == Symbol::XCircle && d.symbol == Symbol::XCircle && r.tint == Tint::Failure
            && d.tint == Tint::Failure) <==> n.status == SubagentStatus::Failed,
        n.tokens_used is None ==> r.tokens is None && d.tokens is None,
        n.tokens_used == Some(used) ==> (r.tokens matches Some(t) && t@ == text::decimal_of(
            used as nat,
        ) + " tok"@) && (d.tokens matches Some(t) && t@ == text::decimal_of(used as nat)
            + " tok"@),
        n.step is None ==> d.step@ == "暂无步骤详情"@,
{
}

/// A panel carries the name, the id and the place of its module, and its fold button the id of
/// what it does.
pub proof fn law_panels_carry_their_module(
    p: DockPanel,
    m: DockModule,
    s: DockState,
    last_active: Option<u64>,
    thread: Option<&ActiveThread>,
    selected: Option<Seq<char>>,
)
    requires
        panel_shows(p, m, s, last_active, thread, selected),
    ensures
        p.title@ == right_dock::title_of(m),
        p.element_id@ == right_dock::element_id_of(m),
        p.index == right_dock::place(m),
        s.folded.contains(m) ==> p.fold_id@ == "vibedev-dpanel-expand"@,
        !s.folded.contains(m) ==> p.fold_id@ == "vibedev-dpanel-collapse"@,
{
}

} // verus!
