//! The windows: those of the editor, and those of conversations.
//!
//! Going from one kind to the other takes a window that is there and opens a new one
//! only where there is none, so that windows do not pile up.

use vstd::prelude::*;

verus! {

/// A window.
#[derive(Clone, Copy, Debug, PartialEq, Eq, Structural)]
pub struct WindowInfo {
    pub id: u64,
    /// Whether it shows conversations; `None` where it holds no projects at all, or
    /// cannot be looked at.
    pub is_agent_app: Option<bool>,
}

/// What to do to get to a window.
#[derive(Clone, Copy, Debug, PartialEq, Eq, Structural)]
pub enum WindowAction {
    Activate { id: u64 },
    OpenNew,
}

/// The window will do: it is of the wanted kind, and not the one that asks.
pub open spec fn will_do(w: WindowInfo, skip: Option<u64>, agent_app: bool) -> bool {
    Some(w.id) != skip && w.is_agent_app == Some(agent_app)
}

/// The first window that will do, looking from a position on.
pub open spec fn first_window(
    windows: Seq<WindowInfo>,
    skip: Option<u64>,
    agent_app: bool,
    from: int,
) -> WindowAction
    decreases windows.len() - from,
{
    if from >= windows.len() {
        WindowAction::OpenNew
    } else if will_do(windows[from], skip, agent_app) {
        WindowAction::Activate { id: windows[from].id }
    } else {
        first_window(windows, skip, agent_app, from + 1)
    }
}

fn find_window(windows: &Vec<WindowInfo>, skip: Option<u64>, agent_app: bool) -> (r:
    WindowAction)
    ensures
        r == first_window(windows@, skip, agent_app, 0),
{
    let mut i: usize = 0;
    while i < windows.len()
        invariant
            i <= windows.len(),
            first_window(windows@, skip, agent_app, 0) == first_window(
                windows@,
                skip,
                agent_app,
                i as int,
            ),
        decreases windows.len() - i,
    {
        let w = windows[i];
        let skipped = match skip {
            Some(id) => id == w.id,
            None => false,
        };
        let fits = match w.is_agent_app {
            Some(a) => a == agent_app,
            None => false,
        };
        if !skipped && fits {
            return WindowAction::Activate { id: w.id };
        }
        i += 1;
    }
    WindowAction::OpenNew
}

/// How to get to the editor from the window that asks.
pub fn open_ide_window(windows: &Vec<WindowInfo>, skip_window: Option<u64>) -> (r: WindowAction)
    ensures
        r == first_window(windows@, skip_window, false, 0),
{
    find_window(windows, skip_window, false)
}

/// How to get to the conversations from the window that asks.
pub fn open_agent_app_window(windows: &Vec<WindowInfo>, skip_window: Option<u64>) -> (r:
    WindowAction)
    ensures
        r == first_window(windows@, skip_window, true, 0),
{
    find_window(windows, skip_window, true)
}

proof fn lemma_first_window(
    windows: Seq<WindowInfo>,
    skip: Option<u64>,
    agent_app: bool,
    from: int,
)
    requires
        0 <= from <= windows.len(),
    ensures
        first_window(windows, skip, agent_app, from) == WindowAction::OpenNew <==> forall|i: int|
            from <= i < windows.len() ==> !will_do(#[trigger] windows[i], skip, agent_app),
    decreases windows.len() - from,
{
    if from < windows.len() {
        lemma_first_window(windows, skip, agent_app, from + 1);
    }
}

/// A window is opened only where none will do; and once one was opened, the next
/// request takes it or an earlier one.
pub proof fn law_windows_do_not_pile_up(
    windows: Seq<WindowInfo>,
    skip: Option<u64>,
    agent_app: bool,
    opened: WindowInfo,
)
    requires
        will_do(opened, skip, agent_app),
    ensures
        first_window(windows, skip, agent_app, 0) == WindowAction::OpenNew <==> forall|i: int|
            0 <= i < windows.len() ==> !will_do(#[trigger] windows[i], skip, agent_app),
        first_window(windows.push(opened), skip, agent_app, 0) is Activate,
{
    lemma_first_window(windows, skip, agent_app, 0);
    let more = windows.push(opened);
    lemma_first_window(more, skip, agent_app, 0);
    assert(will_do(more[windows.len() as int], skip, agent_app));
}

// ---------------------------------------------------------------------------
// Turning a workspace into a conversation
// ---------------------------------------------------------------------------

/// What a workspace becomes.
#[derive(Clone, Copy, Debug, PartialEq, Eq, Structural)]
pub enum Surface {
    /// It is a conversation already.
    Unchanged,
    /// It has no project: the home page is shown, and focused.
    Home,
    /// The agent panel in the middle, and the stack of panels at the right; the pane
    /// of files can no longer be split.
    Conversation,
}

/// A workspace, as far as it matters here.
#[derive(Debug)]
pub struct AgentWorkspace {
    pub agent_mode: bool,
}

/// What a workspace becomes.
pub open spec fn surface_of(agent_mode: bool, has_worktrees: bool) -> Surface {
    if agent_mode {
        Surface::Unchanged
    } else if has_worktrees {
        Surface::Conversation
    } else {
        Surface::Home
    }
}

impl AgentWorkspace {
    /// How to get to the conversations from the window of this workspace; nowhere where it
    /// is one of them.
    pub fn on_open_agent_app(&self, windows: &Vec<WindowInfo>, own_window: u64) -> (r: Option<
        WindowAction,
    >)
        ensures
            r == (if self.agent_mode {
                None
            } else {
                Some(first_window(windows@, Some(own_window), true, 0))
            }),
    {
        if self.agent_mode {
            None
        } else {
            Some(open_agent_app_window(windows, Some(own_window)))
        }
    }

    /// Turns the workspace into a conversation, if it is none.
    pub fn apply_agent_surface(&mut self, has_worktrees: bool) -> (r: Surface)
        ensures
            final(self).agent_mode,
            r == surface_of(old(self).agent_mode, has_worktrees),
    {
        if self.agent_mode {
            return Surface::Unchanged;
        }
        self.agent_mode = true;
        if has_worktrees {
            Surface::Conversation
        } else {
            Surface::Home
        }
    }
}

/// A window that holds projects, as far as it matters here.
#[derive(Debug)]
pub struct AgentWindow {
    /// It shows conversations.
    pub agent_app: bool,
    /// The list of projects and conversations at its side is open.
    pub sidebar_open: bool,
}

/// Turns a new window with its first workspace into one of conversations.
pub fn configure_agent_mode(
    window: &mut AgentWindow,
    workspace: &mut AgentWorkspace,
    has_worktrees: bool,
) -> (r: Surface)
    ensures
        final(window).agent_app,
        final(window).sidebar_open,
        final(workspace).agent_mode,
        r == surface_of(old(workspace).agent_mode, has_worktrees),
{
    let surface = workspace.apply_agent_surface(has_worktrees);
    window.agent_app = true;
    window.sidebar_open = true;
    surface
}

/// Turning a workspace twice changes nothing more.
pub proof fn law_surface_is_applied_once(agent_mode: bool, has_worktrees: bool)
    ensures
        surface_of(true, has_worktrees) == Surface::Unchanged,
        !agent_mode ==> surface_of(agent_mode, has_worktrees) != Surface::Unchanged,
{
}

/// The first other window of the wanted kind is taken; the window that asks never is.
pub proof fn law_first_fitting_window_is_taken(
    windows: Seq<WindowInfo>,
    skip: Option<u64>,
    agent_app: bool,
    at: int,
)
    ensures
        0 <= at < windows.len() && windows[at].is_agent_app == Some(agent_app) && Some(
            windows[at].id,
        ) != skip && (forall|i: int|
            0 <= i < at ==> (#[trigger] windows[i]).is_agent_app != Some(agent_app) || Some(
                windows[i].id,
            ) == skip) ==> first_window(windows, skip, agent_app, 0) == (WindowAction::Activate {
            id: windows[at].id,
        }),
        first_window(windows, skip, agent_app, 0) is Activate ==> Some(
            first_window(windows, skip, agent_app, 0)->id,
        ) != skip && exists|i: int|
            0 <= i < windows.len() && (#[trigger] windows[i]).is_agent_app == Some(agent_app)
                && windows[i].id == first_window(windows, skip, agent_app, 0)->id,
        (forall|i: int|
            0 <= i < windows.len() ==> (#[trigger] windows[i]).is_agent_app != Some(agent_app))
            ==> first_window(windows, skip, agent_app, 0) == WindowAction::OpenNew,
{
    lemma_taken(windows, skip, agent_app, 0);
    lemma_first_window(windows, skip, agent_app, 0);
    if 0 <= at < windows.len() && windows[at].is_agent_app == Some(agent_app) && Some(
        windows[at].id,
    ) != skip && (forall|i: int|
        0 <= i < at ==> (#[trigger] windows[i]).is_agent_app != Some(agent_app) || Some(
            windows[i].id,
        ) == skip) {
        lemma_window_at(windows, skip, agent_app, 0, at);
    }
}

proof fn lemma_window_at(
    windows: Seq<WindowInfo>,
    skip: Option<u64>,
    agent_app: bool,
    from: int,
    at: int,
)
    requires
        0 <= from <= at < windows.len(),
        will_do(windows[at], skip, agent_app),
        forall|i: int| from <= i < at ==> !will_do(#[trigger] windows[i], skip, agent_app),
    ensures
        first_window(windows, skip, agent_app, from) == (WindowAction::Activate {
            id: windows[at].id,
        }),
    decreases at - from,
{
    if from < at {
        lemma_window_at(windows, skip, agent_app, from + 1, at);
    }
}

proof fn lemma_taken(windows: Seq<WindowInfo>, skip: Option<u64>, agent_app: bool, from: int)
    requires
        0 <= from <= windows.len(),
    ensures
        first_window(windows, skip, agent_app, from) is Activate ==> Some(
            first_window(windows, skip, agent_app, from)->id,
        ) != skip && exists|i: int|
            0 <= i < windows.len() && (#[trigger] windows[i]).is_agent_app == Some(agent_app)
                && windows[i].id == first_window(windows, skip, agent_app, from)->id,
    decreases windows.len() - from,
{
    if from < windows.len() && !will_do(windows[from], skip, agent_app) {
        lemma_taken(windows, skip, agent_app, from + 1);
    }
}

/// A workspace with a project becomes a conversation, and one without shows the home page.
pub proof fn law_surface_fits_the_workspace(has_worktrees: bool)
    ensures
        surface_of(false, true) == Surface::Conversation,
        surface_of(false, false) == Surface::Home,
        surface_of(true, has_worktrees) == Surface::Unchanged,
{
}

} // verus!
