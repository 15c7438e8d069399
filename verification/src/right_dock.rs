//! The stack of panels at the right of a conversation.
//!
//! Every module that is switched on is shown, in one fixed order, folded or not. Some
//! come up by themselves: the file panel when a file is opened, the changes when a
//! diff is, and execution and plan when a conversation first has something to show
//! in them.

use vstd::prelude::*;
use vstd::string::*;

use crate::fanout;
use crate::fanout::{NodeModel, SelectedSubagent, SubagentProgress};
use crate::lists;

verus! {

// ---------------------------------------------------------------------------
// The modules
// ---------------------------------------------------------------------------

/// A panel of the stack.
#[derive(Clone, Copy, Debug, PartialEq, Eq, Structural)]
pub enum DockModule {
    /// The tree of files.
    Files,
    /// The opened file.
    File,
    /// The changes that the agent proposes.
    Changes,
    /// The subagents.
    Execution,
    /// The plan.
    Plan,
    /// The terminals.
    Terminal,
}

/// All modules, in the order in which they are shown.
pub open spec fn all() -> Seq<DockModule> {
    seq![
        DockModule::Files,
        DockModule::File,
        DockModule::Changes,
        DockModule::Execution,
        DockModule::Plan,
        DockModule::Terminal,
    ]
}

/// The place of a module among all.
pub open spec fn place(m: DockModule) -> int {
    match m {
        DockModule::Files => 0,
        DockModule::File => 1,
        DockModule::Changes => 2,
        DockModule::Execution => 3,
        DockModule::Plan => 4,
        DockModule::Terminal => 5,
    }
}

/// The title of a module.
pub open spec fn title_of(m: DockModule) -> Seq<char> {
    match m {
        DockModule::Files => "Files"@,
        DockModule::File => "File"@,
        DockModule::Changes => "Changes"@,
        DockModule::Execution => "Execution"@,
        DockModule::Plan => "Plan"@,
        DockModule::Terminal => "Terminal"@,
    }
}

/// The id of the panel of a module.
pub open spec fn element_id_of(m: DockModule) -> Seq<char> {
    match m {
        DockModule::Files => "vibedev-dpanel-files"@,
        DockModule::File => "vibedev-dpanel-preview"@,
        DockModule::Changes => "vibedev-dpanel-changes"@,
        DockModule::Execution => "vibedev-dpanel-execution"@,
        DockModule::Plan => "vibedev-dpanel-plan"@,
        DockModule::Terminal => "vibedev-dpanel-terminal"@,
    }
}

impl DockModule {
    /// All modules, in the order in which they are shown.
    pub fn all_modules() -> (r: Vec<DockModule>)
        ensures
            r@ == all(),
    {
        let r = vec![
            DockModule::Files,
            DockModule::File,
            DockModule::Changes,
            DockModule::Execution,
            DockModule::Plan,
            DockModule::Terminal,
        ];
        assert(r@ =~= all());
        r
    }

    /// The title of the module.
    pub fn title(self) -> (r: &'static str)
        ensures
            r@ == title_of(self),
    {
        match self {
            DockModule::Files => "Files",
            DockModule::File => "File",
            DockModule::Changes => "Changes",
            DockModule::Execution => "Execution",
            DockModule::Plan => "Plan",
            DockModule::Terminal => "Terminal",
        }
    }

    /// The id of its panel.
    pub fn element_id(self) -> (r: &'static str)
        ensures
            r@ == element_id_of(self),
    {
        match self {
            DockModule::Files => "vibedev-dpanel-files",
            DockModule::File => "vibedev-dpanel-preview",
            DockModule::Changes => "vibedev-dpanel-changes",
            DockModule::Execution => "vibedev-dpanel-execution",
            DockModule::Plan => "vibedev-dpanel-plan",
            DockModule::Terminal => "vibedev-dpanel-terminal",
        }
    }

    /// Its place among all modules.
    pub fn index(self) -> (r: usize)
        ensures
            r == place(self),
            all()[r as int] == self,
    {
        match self {
            DockModule::Files => 0,
            DockModule::File => 1,
            DockModule::Changes => 2,
            DockModule::Execution => 3,
            DockModule::Plan => 4,
            DockModule::Terminal => 5,
        }
    }
}

/// These modules in the order in which they are shown.
pub open spec fn in_order(on: Set<DockModule>) -> Seq<DockModule> {
    all().filter(|m: DockModule| on.contains(m))
}

// ---------------------------------------------------------------------------
// The conversation
// ---------------------------------------------------------------------------

/// An entry of a conversation.
pub enum ThreadEntry {
    SubagentProgress(SubagentProgress),
    /// Anything else.
    Other,
}

/// How far a step of a plan is.
#[derive(Clone, Copy, Debug, PartialEq, Eq, Structural)]
pub enum PlanEntryStatus {
    Pending,
    InProgress,
    Completed,
}

/// A step of a plan.
pub struct PlanEntry {
    pub status: PlanEntryStatus,
    pub content: String,
}

/// The conversation that is looked at.
pub struct ActiveThread {
    pub id: u64,
    pub entries: Vec<ThreadEntry>,
    pub plan: Vec<PlanEntry>,
}

/// The reports among the entries, in order.
pub open spec fn progresses(entries: Seq<ThreadEntry>) -> Seq<NodeModel>
    decreases entries.len(),
{
    if entries.len() == 0 {
        Seq::empty()
    } else {
        match entries.last() {
            ThreadEntry::SubagentProgress(p) => progresses(entries.drop_last()).push(p@),
            ThreadEntry::Other => progresses(entries.drop_last()),
        }
    }
}

/// The subagents of a conversation.
pub open spec fn nodes_of(t: ActiveThread) -> Seq<NodeModel> {
    fanout::folded(progresses(t.entries@))
}

/// How many steps of a plan are done.
pub open spec fn completed(plan: Seq<PlanEntry>) -> nat
    decreases plan.len(),
{
    if plan.len() == 0 {
        0
    } else {
        completed(plan.drop_last()) + (if plan.last().status == PlanEntryStatus::Completed {
            1nat
        } else {
            0
        })
    }
}

pub(crate) fn collect_progresses(entries: &Vec<ThreadEntry>) -> (r: Vec<SubagentProgress>)
    ensures
        fanout::entry_models(r@) == progresses(entries@),
{
    let mut r: Vec<SubagentProgress> = Vec::new();
    let mut i: usize = 0;
    assert(fanout::entry_models(r@) =~= progresses(entries@.take(0)));
    while i < entries.len()
        invariant
            i <= entries.len(),
            fanout::entry_models(r@) == progresses(entries@.take(i as int)),
        decreases entries.len() - i,
    {
        proof {
            assert(entries@.take(i + 1).drop_last() =~= entries@.take(i as int));
            assert(entries@.take(i + 1).last() == entries[i as int]);
        }
        let ghost before = fanout::entry_models(r@);
        match &entries[i] {
            ThreadEntry::SubagentProgress(p) => {
                r.push(p.duplicate());
                assert(fanout::entry_models(r@) =~= before.push(p@));
            },
            ThreadEntry::Other => {},
        }
        i += 1;
    }
    assert(entries@.take(i as int) =~= entries@);
    r
}

fn has_progress(entries: &Vec<ThreadEntry>) -> (r: bool)
    ensures
        r == (progresses(entries@).len() > 0),
{
    let mut i: usize = 0;
    assert(entries@.take(0) =~= Seq::empty());
    while i < entries.len()
        invariant
            i <= entries.len(),
            progresses(entries@.take(i as int)).len() == 0,
        decreases entries.len() - i,
    {
        proof {
            assert(entries@.take(i + 1).drop_last() =~= entries@.take(i as int));
            assert(entries@.take(i + 1).last() == entries[i as int]);
        }
        match &entries[i] {
            ThreadEntry::SubagentProgress(_) => {
                proof {
                    lemma_progresses_grow(entries@, i + 1);
                }
                return true;
            },
            ThreadEntry::Other => {},
        }
        i += 1;
    }
    assert(entries@.take(i as int) =~= entries@);
    false
}

proof fn lemma_progresses_grow(entries: Seq<ThreadEntry>, n: int)
    requires
        0 <= n <= entries.len(),
    ensures
        progresses(entries.take(n)).len() <= progresses(entries).len(),
    decreases entries.len() - n,
{
    if n < entries.len() {
        lemma_progresses_grow(entries, n + 1);
        assert(entries.take(n + 1).drop_last() =~= entries.take(n));
    } else {
        assert(entries.take(n) =~= entries);
    }
}

// ---------------------------------------------------------------------------
// The stack
// ---------------------------------------------------------------------------

/// A panel that has to be loaded.
#[derive(Clone, Copy, Debug, PartialEq, Eq, Structural)]
pub enum PanelLoad {
    Files,
    Terminal,
}

/// The stack of panels.
pub struct VibedevRightDock {
    /// The pane in which files were opened when the stack was made.
    pub center_pane: u64,
    /// The pane in which changes are opened.
    pub changes_pane: u64,
    /// What is shown, in order.
    pub enabled: Vec<DockModule>,
    /// What is folded.
    pub collapsed: Vec<DockModule>,
    /// The tree of files is loaded.
    pub files_loaded: bool,
    /// Loading the terminals was begun.
    pub terminal_load_started: bool,
    /// The terminals are loaded.
    pub terminal_loaded: bool,
    /// Changes of the conversation are listened to.
    pub subscribed: bool,
    /// The conversation that is looked at.
    pub active_thread: Option<u64>,
    /// It has brought up the execution panel.
    pub execution_surfaced: bool,
    /// It has brought up the plan panel.
    pub plan_surfaced: bool,
    /// The text that the detail view was last set from.
    pub detail: Option<String>,
}

/// The model of the stack.
pub ghost struct DockState {
    pub center_pane: u64,
    pub changes_pane: u64,
    pub on: Set<DockModule>,
    pub folded: Set<DockModule>,
    pub files_loaded: bool,
    pub terminal_load_started: bool,
    pub terminal_loaded: bool,
    pub subscribed: bool,
    pub thread: Option<u64>,
    pub execution_surfaced: bool,
    pub plan_surfaced: bool,
    pub detail: Option<Seq<char>>,
}

impl View for VibedevRightDock {
    type V = DockState;

    open spec fn view(&self) -> DockState {
        DockState {
            center_pane: self.center_pane,
            changes_pane: self.changes_pane,
            on: self.enabled@.to_set(),
            folded: self.collapsed@.to_set(),
            files_loaded: self.files_loaded,
            terminal_load_started: self.terminal_load_started,
            terminal_loaded: self.terminal_loaded,
            subscribed: self.subscribed,
            thread: self.active_thread,
            execution_surfaced: self.execution_surfaced,
            plan_surfaced: self.plan_surfaced,
            detail: lists::text_of(self.detail),
        }
    }
}

/// The stack at the beginning.
pub open spec fn fresh(center_pane: u64, changes_pane: u64) -> DockState {
    DockState {
        center_pane,
        changes_pane,
        on: set![DockModule::Files, DockModule::File],
        folded: Set::empty(),
        files_loaded: false,
        terminal_load_started: false,
        terminal_loaded: false,
        subscribed: false,
        thread: None,
        execution_surfaced: false,
        plan_surfaced: false,
        detail: None,
    }
}

/// A module is shown and unfolded.
pub open spec fn with_shown(s: DockState, m: DockModule) -> DockState {
    DockState { on: s.on.insert(m), folded: s.folded.remove(m), ..s }
}

/// A module is switched on, if it is not: its panel is loaded where it has one of
/// its own that is not there.
pub open spec fn with_enabled(s: DockState, m: DockModule) -> (DockState, Option<PanelLoad>) {
    if s.on.contains(m) {
        (s, None)
    } else {
        let shown = with_shown(s, m);
        match m {
            DockModule::Files => (
                shown,
                if s.files_loaded {
                    None
                } else {
                    Some(PanelLoad::Files)
                },
            ),
            DockModule::Terminal => (
                DockState { terminal_load_started: true, ..shown },
                if s.terminal_load_started {
                    None
                } else {
                    Some(PanelLoad::Terminal)
                },
            ),
            _ => (shown, None),
        }
    }
}

/// A module is switched off.
pub open spec fn with_disabled(s: DockState, m: DockModule) -> DockState {
    DockState { on: s.on.remove(m), folded: s.folded.remove(m), ..s }
}

/// A module is switched over.
pub open spec fn with_toggled(s: DockState, m: DockModule) -> (DockState, Option<PanelLoad>) {
    if s.on.contains(m) {
        (with_disabled(s, m), None)
    } else {
        with_enabled(s, m)
    }
}

/// A module is folded or unfolded.
pub open spec fn with_folding_toggled(s: DockState, m: DockModule) -> DockState {
    DockState {
        folded: if s.folded.contains(m) {
            s.folded.remove(m)
        } else {
            s.folded.insert(m)
        },
        ..s
    }
}

/// A module comes up by itself: where it is shown already it stays as it is.
pub open spec fn with_surfaced(s: DockState, m: DockModule) -> DockState {
    if s.on.contains(m) {
        s
    } else {
        with_shown(s, m)
    }
}

/// The conversation has new contents: execution and plan come up the first time that
/// there is something to show in them.
pub open spec fn with_contents(s: DockState, has_subagents: bool, has_plan: bool) -> DockState {
    let a = if has_subagents && !s.execution_surfaced {
        DockState { execution_surfaced: true, ..with_surfaced(s, DockModule::Execution) }
    } else {
        s
    };
    if has_plan && !a.plan_surfaced {
        DockState { plan_surfaced: true, ..with_surfaced(a, DockModule::Plan) }
    } else {
        a
    }
}

/// The conversation that is looked at may be another one.
pub open spec fn with_thread(s: DockState, id: Option<u64>) -> DockState {
    if s.thread == id {
        s
    } else {
        DockState { thread: id, execution_surfaced: false, plan_surfaced: false, ..s }
    }
}

fn lists_module(v: &Vec<DockModule>, m: DockModule) -> (r: bool)
    ensures
        r == v@.to_set().contains(m),
{
    let mut i: usize = 0;
    while i < v.len()
        invariant
            i <= v.len(),
            forall|j: int| 0 <= j < i ==> v[j] != m,
        decreases v.len() - i,
    {
        if v[i] == m {
            assert(v@.contains(m));
            return true;
        }
        i += 1;
    }
    false
}

fn without_module(v: &Vec<DockModule>, m: DockModule) -> (r: Vec<DockModule>)
    ensures
        r@.to_set() == v@.to_set().remove(m),
        r@ == v@.filter(|x: DockModule| x != m),
{
    let ghost keep = |x: DockModule| x != m;
    let mut r: Vec<DockModule> = Vec::new();
    let mut i: usize = 0;
    proof {
        reveal(Seq::filter);
        assert(v@.take(0).filter(keep) =~= r@);
    }
    while i < v.len()
        invariant
            i <= v.len(),
            keep == (|x: DockModule| x != m),
            r@ == v@.take(i as int).filter(keep),
        decreases v.len() - i,
    {
        proof {
            assert(v@.take(i + 1) =~= v@.take(i as int).push(v[i as int]));
            lists::lemma_filter_push(v@.take(i as int), v[i as int], keep);
        }
        if v[i] != m {
            r.push(v[i]);
        }
        i += 1;
    }
    proof {
        assert(v@.take(i as int) =~= v@);
        lemma_filter_contains(v@, keep);
        assert(r@.to_set() =~= v@.to_set().remove(m));
    }
    r
}

proof fn lemma_filter_contains(s: Seq<DockModule>, keep: spec_fn(DockModule) -> bool)
    ensures
        forall|x: DockModule| #[trigger]
            s.filter(keep).contains(x) <==> s.contains(x) && keep(x),
    decreases s.len(),
{
    reveal(Seq::filter);
    if s.len() > 0 {
        let rest = s.drop_last();
        lemma_filter_contains(rest, keep);
        assert(s =~= rest.push(s.last()));
        lists::lemma_filter_push(rest, s.last(), keep);
        assert forall|x: DockModule| #[trigger] s.filter(keep).contains(x) <==> s.contains(x)
            && keep(x) by {
            let f = rest.filter(keep);
            assert(f.push(s.last()).contains(x) <==> f.contains(x) || x == s.last()) by {
                if f.contains(x) {
                    let i = choose|i: int| 0 <= i < f.len() && f[i] == x;
                    assert(f.push(s.last())[i] == x);
                }
                if x == s.last() {
                    assert(f.push(s.last())[f.len() as int] == x);
                }
            }
            assert(s.contains(x) <==> rest.contains(x) || x == s.last()) by {
                if rest.contains(x) {
                    let i = choose|i: int| 0 <= i < rest.len() && rest[i] == x;
                    assert(s[i] == x);
                }
            }
        }
    }
}

proof fn lemma_all_contains(m: DockModule)
    ensures
        all().contains(m),
{
    assert(all()[place(m)] == m);
}

/// Every set of modules can be shown: in order, each once.
pub proof fn law_modules_are_shown_in_order(on: Set<DockModule>)
    ensures
        in_order(on).to_set() == on,
        forall|i: int, j: int|
            0 <= i < j < in_order(on).len() ==> place(#[trigger] in_order(on)[i]) < place(
                #[trigger] in_order(on)[j],
            ),
{
    let keep = |m: DockModule| on.contains(m);
    lemma_filter_contains(all(), keep);
    assert forall|m: DockModule| on.contains(m) implies in_order(on).contains(m) by {
        lemma_all_contains(m);
    }
    assert(in_order(on).to_set() =~= on);
    assert forall|i: int| 0 <= i < all().len() implies place(#[trigger] all()[i]) == i by {}
    lemma_filter_sorted(all(), keep);
}

proof fn lemma_filter_sorted(s: Seq<DockModule>, keep: spec_fn(DockModule) -> bool)
    requires
        forall|i: int, j: int|
            0 <= i < j < s.len() ==> place(#[trigger] s[i]) < place(#[trigger] s[j]),
    ensures
        forall|i: int, j: int|
            0 <= i < j < s.filter(keep).len() ==> place(#[trigger] s.filter(keep)[i]) < place(
                #[trigger] s.filter(keep)[j],
            ),
    decreases s.len(),
{
    reveal(Seq::filter);
    if s.len() > 0 {
        let rest = s.drop_last();
        lemma_filter_sorted(rest, keep);
        lemma_filter_contains(rest, keep);
        assert(s =~= rest.push(s.last()));
        lists::lemma_filter_push(rest, s.last(), keep);
        assert forall|i: int, j: int| 0 <= i < j < s.filter(keep).len() implies place(
            #[trigger] s.filter(keep)[i],
        ) < place(#[trigger] s.filter(keep)[j]) by {
            let f = rest.filter(keep);
            if j == f.len() {
                assert(f.contains(f[i]));
                assert(rest.contains(f[i]));
                let k = choose|k: int| 0 <= k < rest.len() && rest[k] == f[i];
                assert(place(s[k]) < place(s[s.len() - 1]));
            }
        }
    }
}

fn ordered(v: &Vec<DockModule>) -> (r: Vec<DockModule>)
    ensures
        r@ == in_order(v@.to_set()),
{
    let every = DockModule::all_modules();
    let ghost keep = |m: DockModule| v@.to_set().contains(m);
    let mut r: Vec<DockModule> = Vec::new();
    let mut i: usize = 0;
    proof {
        reveal(Seq::filter);
        assert(every@.take(0).filter(keep) =~= r@);
    }
    while i < every.len()
        invariant
            i <= every.len(),
            keep == (|m: DockModule| v@.to_set().contains(m)),
            r@ == every@.take(i as int).filter(keep),
        decreases every.len() - i,
    {
        proof {
            assert(every@.take(i + 1) =~= every@.take(i as int).push(every[i as int]));
            lists::lemma_filter_push(every@.take(i as int), every[i as int], keep);
        }
        if lists_module(v, every[i]) {
            r.push(every[i]);
        }
        i += 1;
    }
    proof {
        assert(every@.take(i as int) =~= every@);
    }
    r
}

impl VibedevRightDock {
    /// The modules are shown in order.
    pub open spec fn wf(&self) -> bool {
        self.enabled@ == in_order(self.enabled@.to_set())
    }

    /// A stack that shows the files; the tree is to be loaded.
    pub fn new(center_pane: u64, changes_pane: u64) -> (r: (Self, Option<PanelLoad>))
        ensures
            r.0.wf(),
            r.0@ == fresh(center_pane, changes_pane),
            r.1 == Some(PanelLoad::Files),
    {
        let shown = vec![DockModule::Files, DockModule::File];
        let enabled = ordered(&shown);
        proof {
            assert(shown@[0] == DockModule::Files);
            assert(shown@[1] == DockModule::File);
            assert(shown@.to_set() =~= set![DockModule::Files, DockModule::File]);
            law_modules_are_shown_in_order(shown@.to_set());
        }
        let r = VibedevRightDock {
            center_pane,
            changes_pane,
            enabled,
            collapsed: Vec::new(),
            files_loaded: false,
            terminal_load_started: false,
            terminal_loaded: false,
            subscribed: false,
            active_thread: None,
            execution_surfaced: false,
            plan_surfaced: false,
            detail: None,
        };
        assert(r.collapsed@.to_set() =~= Set::empty());
        (r, Some(PanelLoad::Files))
    }

    /// The pane in which changes are opened.
    pub fn changes_pane(&self) -> (r: u64)
        ensures
            r == self@.changes_pane,
    {
        self.changes_pane
    }

    /// Whether a module is shown.
    pub fn is_enabled(&self, module: DockModule) -> (r: bool)
        ensures
            r == self@.on.contains(module),
    {
        lists_module(&self.enabled, module)
    }

    /// Whether a module is folded.
    pub fn is_collapsed(&self, module: DockModule) -> (r: bool)
        ensures
            r == self@.folded.contains(module),
    {
        lists_module(&self.collapsed, module)
    }

    fn show(&mut self, module: DockModule)
        requires
            old(self).wf(),
        ensures
            final(self).wf(),
            final(self)@ == with_shown(old(self)@, module),
    {
        if !lists_module(&self.enabled, module) {
            let ghost before = self.enabled@;
            self.enabled.push(module);
            proof {
                assert(self.enabled@.to_set() =~= before.to_set().insert(module)) by {
                    assert forall|m: DockModule| #[trigger]
                        self.enabled@.contains(m) <==> before.contains(m) || m == module by {
                        if before.contains(m) {
                            let i = choose|i: int| 0 <= i < before.len() && before[i] == m;
                            assert(self.enabled@[i] == m);
                        }
                        if m == module {
                            assert(self.enabled@[before.len() as int] == m);
                        }
                    }
                }
                law_modules_are_shown_in_order(self.enabled@.to_set());
            }
            self.enabled = ordered(&self.enabled);
        } else {
            assert(self.enabled@.to_set().insert(module) =~= self.enabled@.to_set());
        }
        self.collapsed = without_module(&self.collapsed, module);
    }

    /// Something was opened in the pane of files: the file panel is shown and
    /// unfolded. Another event of that pane changes nothing.
    pub fn handle_center_pane_event(&mut self, item_added: bool)
        requires
            old(self).wf(),
        ensures
            final(self).wf(),
            final(self)@ == (if item_added {
                with_shown(old(self)@, DockModule::File)
            } else {
                old(self)@
            }),
    {
        if item_added {
            self.show(DockModule::File);
        }
    }

    /// Something was opened in the pane of changes: that panel is shown and unfolded.
    /// Another event of that pane changes nothing.
    pub fn handle_changes_pane_event(&mut self, item_added: bool)
        requires
            old(self).wf(),
        ensures
            final(self).wf(),
            final(self)@ == (if item_added {
                with_shown(old(self)@, DockModule::Changes)
            } else {
                old(self)@
            }),
    {
        if item_added {
            self.show(DockModule::Changes);
        }
    }

    /// Switches a module on, if it is not; what is to be loaded is returned.
    pub fn enable_module(&mut self, module: DockModule) -> (r: Option<PanelLoad>)
        requires
            old(self).wf(),
        ensures
            final(self).wf(),
            (final(self)@, r) == with_enabled(old(self)@, module),
    {
        if lists_module(&self.enabled, module) {
            return None;
        }
        self.show(module);
        match module {
            DockModule::Files => if self.files_loaded {
                None
            } else {
                Some(PanelLoad::Files)
            },
            DockModule::Terminal => {
                let started = self.terminal_load_started;
                self.terminal_load_started = true;
                if started {
                    None
                } else {
                    Some(PanelLoad::Terminal)
                }
            },
            _ => None,
        }
    }

    /// Switches a module off.
    pub fn disable_module(&mut self, module: DockModule)
        requires
            old(self).wf(),
        ensures
            final(self).wf(),
            final(self)@ == with_disabled(old(self)@, module),
    {
        let left = without_module(&self.enabled, module);
        proof {
            law_modules_are_shown_in_order(left@.to_set());
        }
        self.enabled = ordered(&left);
        self.collapsed = without_module(&self.collapsed, module);
    }

    /// Switches a module over; what is to be loaded is returned.
    pub fn toggle_module(&mut self, module: DockModule) -> (r: Option<PanelLoad>)
        requires
            old(self).wf(),
        ensures
            final(self).wf(),
            (final(self)@, r) == with_toggled(old(self)@, module),
    {
        if lists_module(&self.enabled, module) {
            self.disable_module(module);
            None
        } else {
            self.enable_module(module)
        }
    }

    /// Folds or unfolds a module.
    pub fn toggle_collapsed(&mut self, module: DockModule)
        requires
            old(self).wf(),
        ensures
            final(self).wf(),
            final(self)@ == with_folding_toggled(old(self)@, module),
    {
        if lists_module(&self.collapsed, module) {
            self.collapsed = without_module(&self.collapsed, module);
        } else {
            let ghost before = self.collapsed@;
            self.collapsed.push(module);
            assert(self.collapsed@.to_set() =~= before.to_set().insert(module)) by {
                assert forall|m: DockModule| #[trigger]
                    self.collapsed@.contains(m) <==> before.contains(m) || m == module by {
                    if before.contains(m) {
                        let i = choose|i: int| 0 <= i < before.len() && before[i] == m;
                        assert(self.collapsed@[i] == m);
                    }
                    if m == module {
                        assert(self.collapsed@[before.len() as int] == m);
                    }
                }
            }
        }
    }

    /// The tree of files is loaded.
    pub fn project_panel_loaded(&mut self)
        requires
            old(self).wf(),
        ensures
            final(self).wf(),
            final(self)@ == (DockState { files_loaded: true, ..old(self)@ }),
    {
        self.files_loaded = true;
    }

    /// The terminals are loaded; the first one is to be started.
    pub fn terminal_panel_loaded(&mut self)
        requires
            old(self).wf(),
        ensures
            final(self).wf(),
            final(self)@ == (DockState { terminal_loaded: true, ..old(self)@ }),
    {
        self.terminal_loaded = true;
    }

    /// Whether asking for a new terminal starts one: only once they are loaded.
    pub fn can_spawn_terminal(&self) -> (r: bool)
        ensures
            r == self@.terminal_loaded,
    {
        self.terminal_loaded
    }

    fn surface(&mut self, module: DockModule)
        requires
            old(self).wf(),
        ensures
            final(self).wf(),
            final(self)@ == with_surfaced(old(self)@, module),
    {
        if !lists_module(&self.enabled, module) {
            self.show(module);
        }
    }

    /// Brings up the execution panel the first time that the conversation has
    /// subagents; one that was closed since stays closed.
    pub fn maybe_surface_execution(&mut self, thread: &ActiveThread)
        requires
            old(self).wf(),
        ensures
            final(self).wf(),
            final(self)@ == with_contents(
                old(self)@,
                progresses(thread.entries@).len() > 0,
                false,
            ),
    {
        if !self.execution_surfaced && has_progress(&thread.entries) {
            self.surface(DockModule::Execution);
            self.execution_surfaced = true;
        }
    }

    /// Brings up the plan panel the first time that the conversation has a plan; one
    /// that was closed since stays closed.
    pub fn maybe_surface_plan(&mut self, thread: &ActiveThread)
        requires
            old(self).wf(),
        ensures
            final(self).wf(),
            final(self)@ == with_contents(old(self)@, false, thread.plan@.len() > 0),
    {
        if !self.plan_surfaced && thread.plan.len() > 0 {
            self.surface(DockModule::Plan);
            self.plan_surfaced = true;
        }
    }

    /// The conversation has changed.
    pub fn on_thread_updated(&mut self, thread: &ActiveThread)
        requires
            old(self).wf(),
        ensures
            final(self).wf(),
            final(self)@ == with_contents(
                old(self)@,
                progresses(thread.entries@).len() > 0,
                thread.plan@.len() > 0,
            ),
    {
        self.maybe_surface_execution(thread);
        self.maybe_surface_plan(thread);
    }

    /// The conversation that is looked at may have changed: if it has, no subagent is
    /// looked at any more; either way its panels may come up.
    pub fn refresh_active_thread(
        &mut self,
        thread: Option<&ActiveThread>,
        selected: &mut SelectedSubagent,
    )
        requires
            old(self).wf(),
        ensures
            final(self).wf(),
            ({
                let id = match thread {
                    Some(t) => Some(t.id),
                    None => None,
                };
                let s = with_thread(old(self)@, id);
                &&& final(self)@ == match thread {
                    Some(t) => with_contents(
                        s,
                        progresses(t.entries@).len() > 0,
                        t.plan@.len() > 0,
                    ),
                    None => s,
                }
                &&& final(selected)@ == (if old(self)@.thread == id {
                    old(selected)@
                } else {
                    None
                })
            }),
    {
        let same = match (self.active_thread, thread) {
            (Some(a), Some(t)) => a == t.id,
            (None, None) => true,
            _ => false,
        };
        if !same {
            self.active_thread = match thread {
                Some(t) => Some(t.id),
                None => None,
            };
            self.execution_surfaced = false;
            self.plan_surfaced = false;
            selected.set(None);
        }
        match thread {
            Some(t) => self.on_thread_updated(t),
            None => {},
        }
    }

    /// Whether changes of the conversation are now to be listened to: once, as soon as
    /// there is an agent panel.
    pub fn subscribe(&mut self, has_panel: bool) -> (r: bool)
        requires
            old(self).wf(),
        ensures
            final(self).wf(),
            r == (has_panel && !old(self)@.subscribed),
            final(self)@ == (DockState {
                subscribed: old(self)@.subscribed || has_panel,
                ..old(self)@
            }),
    {
        if !self.subscribed && has_panel {
            self.subscribed = true;
            true
        } else {
            false
        }
    }
}

// ---------------------------------------------------------------------------
// Laws of the stack
// ---------------------------------------------------------------------------

/// Switching a module over twice shows the same modules again, and leaves the folding
/// of the others; the module itself is then unfolded, where it was shown.
pub proof fn law_toggling_twice_restores(s: DockState, m: DockModule)
    ensures
        ({
            let twice = with_toggled(with_toggled(s, m).0, m).0;
            &&& twice.on == s.on
            &&& twice.folded == s.folded.remove(m)
        }),
{
    let twice = with_toggled(with_toggled(s, m).0, m).0;
    assert(twice.on =~= s.on);
    assert(twice.folded =~= s.folded.remove(m));
}

/// Folding a module twice changes nothing.
pub proof fn law_folding_twice_restores(s: DockState, m: DockModule)
    ensures
        with_folding_toggled(with_folding_toggled(s, m), m) == s,
{
    assert(with_folding_toggled(with_folding_toggled(s, m), m).folded =~= s.folded);
}

/// The terminals are loaded once only.
pub proof fn law_terminals_are_loaded_once(s: DockState, m: DockModule)
    requires
        s.terminal_load_started,
    ensures
        with_toggled(s, m).1 != Some(PanelLoad::Terminal),
        with_toggled(s, m).0.terminal_load_started,
{
}

/// What the user has closed or folded stays so: a conversation that has brought up
/// its panels changes nothing about them any more, whatever comes.
pub proof fn law_closed_panels_stay_closed(s: DockState, has_subagents: bool, has_plan: bool)
    ensures
        ({
            let after = with_contents(s, has_subagents, has_plan);
            &&& with_contents(after, has_subagents, has_plan) == after
            &&& s.execution_surfaced && s.plan_surfaced ==> after == s
            &&& s.on.contains(DockModule::Execution) ==> (s.folded.contains(DockModule::Execution)
                <==> after.folded.contains(DockModule::Execution))
            &&& s.on.contains(DockModule::Plan) ==> (s.folded.contains(DockModule::Plan)
                <==> after.folded.contains(DockModule::Plan))
        }),
{
}

/// Switching a module over shows it, unfolded, where it was not shown, and takes it away
/// where it was; nothing changes about any other module, nor about the conversation.
pub proof fn law_toggling_shows_or_hides(s: DockState, m: DockModule, other: DockModule)
    requires
        other != m,
    ensures
        ({
            let after = with_toggled(s, m).0;
            &&& after.on.contains(m) <==> !s.on.contains(m)
            &&& !after.folded.contains(m)
            &&& after.on.contains(other) <==> s.on.contains(other)
            &&& after.folded.contains(other) <==> s.folded.contains(other)
            &&& after.thread == s.thread && after.detail == s.detail
            &&& after.execution_surfaced == s.execution_surfaced && after.plan_surfaced
                == s.plan_surfaced
            &&& after.center_pane == s.center_pane && after.changes_pane == s.changes_pane
            &&& after.files_loaded == s.files_loaded
        }),
{
}

/// A panel is loaded when its module is first switched on: the tree of files until it is
/// there, the terminals once. A module that is shown already stays as it is.
pub proof fn law_panels_are_loaded_when_needed(s: DockState, m: DockModule)
    ensures
        s.on.contains(m) ==> with_enabled(s, m) == (s, None::<PanelLoad>),
        !s.on.contains(m) ==> with_enabled(s, m).0.on == s.on.insert(m) && !with_enabled(
            s,
            m,
        ).0.folded.contains(m),
        !s.on.contains(DockModule::Files) ==> with_enabled(s, DockModule::Files).1 == (
        if s.files_loaded {
            None
        } else {
            Some(PanelLoad::Files)
        }),
        !s.on.contains(DockModule::Terminal) ==> with_enabled(s, DockModule::Terminal).1 == (
        if s.terminal_load_started {
            None
        } else {
            Some(PanelLoad::Terminal)
        }) && with_enabled(s, DockModule::Terminal).0.terminal_load_started,
        m != DockModule::Files && m != DockModule::Terminal ==> with_enabled(s, m).1 is None,
{
}

/// Folding changes whether one module is folded, and nothing else.
pub proof fn law_folding_folds(s: DockState, m: DockModule, other: DockModule)
    requires
        other != m,
    ensures
        with_folding_toggled(s, m).folded.contains(m) <==> !s.folded.contains(m),
        with_folding_toggled(s, m).folded.contains(other) <==> s.folded.contains(other),
        with_folding_toggled(s, m).on == s.on,
{
}

/// The first subagents of a conversation bring up the execution panel, unfolded, and its
/// first plan the plan panel; without them nothing comes up, and no other panel does.
pub proof fn law_first_contents_bring_up_panels(
    s: DockState,
    has_subagents: bool,
    has_plan: bool,
    m: DockModule,
)
    ensures
        ({
            let after = with_contents(s, has_subagents, has_plan);
            &&& has_subagents && !s.execution_surfaced ==> after.on.contains(DockModule::Execution)
                && after.execution_surfaced
            &&& has_subagents && !s.execution_surfaced && !s.on.contains(DockModule::Execution)
                ==> !after.folded.contains(DockModule::Execution)
            &&& has_plan && !s.plan_surfaced ==> after.on.contains(DockModule::Plan)
                && after.plan_surfaced
            &&& has_plan && !s.plan_surfaced && !s.on.contains(DockModule::Plan)
                ==> !after.folded.contains(DockModule::Plan)
            &&& !has_subagents && !has_plan ==> after == s
            &&& !has_subagents ==> (after.on.contains(DockModule::Execution) <==> s.on.contains(
                DockModule::Execution,
            )) && after.execution_surfaced == s.execution_surfaced
            &&& !has_plan ==> (after.on.contains(DockModule::Plan) <==> s.on.contains(
                DockModule::Plan,
            )) && after.plan_surfaced == s.plan_surfaced
            &&& m != DockModule::Execution && m != DockModule::Plan ==> (after.on.contains(m)
                <==> s.on.contains(m)) && (after.folded.contains(m) <==> s.folded.contains(m))
            &&& after.thread == s.thread
        }),
{
}

/// Another conversation may bring up its panels anew; the same one may not, and no panel
/// comes or goes by the change alone.
pub proof fn law_another_conversation_starts_anew(s: DockState, id: Option<u64>)
    ensures
        with_thread(s, s.thread) == s,
        id != s.thread ==> with_thread(s, id).thread == id && !with_thread(
            s,
            id,
        ).execution_surfaced && !with_thread(s, id).plan_surfaced,
        with_thread(s, id).on == s.on && with_thread(s, id).folded == s.folded,
{
}

/// From above: files, file, changes, execution, plan, terminal. At first the files and the
/// file are shown, and nothing is folded.
pub proof fn law_order_of_the_panels(center_pane: u64, changes_pane: u64, m: DockModule)
    ensures
        place(DockModule::Files) < place(DockModule::File),
        place(DockModule::File) < place(DockModule::Changes),
        place(DockModule::Changes) < place(DockModule::Execution),
        place(DockModule::Execution) < place(DockModule::Plan),
        place(DockModule::Plan) < place(DockModule::Terminal),
        fresh(center_pane, changes_pane).on.contains(m) <==> m == DockModule::Files || m
            == DockModule::File,
        !fresh(center_pane, changes_pane).folded.contains(m),
        fresh(center_pane, changes_pane).changes_pane == changes_pane,
{
}

/// Only reports of subagents count as such, in their order, and only finished steps of a
/// plan as completed.
pub proof fn law_reports_and_steps_are_counted(
    entries: Seq<ThreadEntry>,
    p: SubagentProgress,
    plan: Seq<PlanEntry>,
    e: PlanEntry,
)
    ensures
        progresses(entries.push(ThreadEntry::SubagentProgress(p))) == progresses(entries).push(p@),
        progresses(entries.push(ThreadEntry::Other)) == progresses(entries),
        progresses(Seq::empty()).len() == 0,
        completed(plan.push(e)) == completed(plan) + (if e.status == PlanEntryStatus::Completed {
            1int
        } else {
            0
        }),
        completed(Seq::empty()) == 0,
{
    assert(entries.push(ThreadEntry::SubagentProgress(p)).drop_last() =~= entries);
    assert(entries.push(ThreadEntry::Other).drop_last() =~= entries);
    assert(plan.push(e).drop_last() =~= plan);
}

/// Panels can be told apart by their ids.
pub proof fn law_panels_have_their_ids(m: DockModule)
    ensures
        element_id_of(DockModule::Files) == "vibedev-dpanel-files"@,
        element_id_of(DockModule::File) == "vibedev-dpanel-preview"@,
        element_id_of(DockModule::Changes) == "vibedev-dpanel-changes"@,
        element_id_of(DockModule::Execution) == "vibedev-dpanel-execution"@,
        element_id_of(DockModule::Plan) == "vibedev-dpanel-plan"@,
        element_id_of(DockModule::Terminal) == "vibedev-dpanel-terminal"@,
{
}

/// Every panel goes by its own name.
pub proof fn law_panels_go_by_their_names(m: DockModule)
    ensures
        title_of(DockModule::Files) == "Files"@,
        title_of(DockModule::File) == "File"@,
        title_of(DockModule::Changes) == "Changes"@,
        title_of(DockModule::Execution) == "Execution"@,
        title_of(DockModule::Plan) == "Plan"@,
        title_of(DockModule::Terminal) == "Terminal"@,
{
}

/// A new dock shows the project's files and the open one, unfolded; it has loaded nothing,
/// listens to nothing, belongs to no conversation and has brought nothing up.
pub proof fn law_new_dock_has_done_nothing(center_pane: u64, changes_pane: u64, m: DockModule)
    ensures
        ({
            let s = fresh(center_pane, changes_pane);
            &&& s.center_pane == center_pane && s.changes_pane == changes_pane
            &&& s.on.contains(m) <==> m == DockModule::Files || m == DockModule::File
            &&& !s.folded.contains(m)
            &&& !s.files_loaded && !s.terminal_load_started && !s.terminal_loaded
            &&& !s.subscribed && s.thread is None && s.detail is None
            &&& !s.execution_surfaced && !s.plan_surfaced
        }),
{
}

} // verus!
