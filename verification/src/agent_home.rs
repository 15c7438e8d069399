//! The page that is shown where no project is open.

use vstd::prelude::*;
use vstd::string::*;

verus! {

/// How many projects are listed.
pub const RECENT_LIMIT: usize = 6;

/// How often the account is asked for, and how many seconds apart.
pub const ACCOUNT_ATTEMPTS: u32 = 8;

pub const ACCOUNT_RETRY_SECS: u64 = 2;

/// A folder of a project.
pub struct ProjectPath {
    pub path: String,
    /// The last part of the path, where it has one.
    pub file_name: Option<String>,
}

/// A project that was open before.
pub struct RecentWorkspace {
    /// The folders that tell what project it is.
    pub identity_paths: Vec<ProjectPath>,
    /// It lies on another host.
    pub is_remote: bool,
}

/// The symbol of a project.
#[derive(Clone, Copy, Debug, PartialEq, Eq, Structural)]
pub enum ProjectSymbol {
    Folder,
    Server,
}

/// A line of the list of projects.
pub struct RecentRow {
    pub name: String,
    pub path: String,
    pub symbol: ProjectSymbol,
}

/// The name of a project: the last part of the path of its first folder.
pub open spec fn project_name(paths: Seq<ProjectPath>) -> Seq<char> {
    if paths.len() > 0 && paths[0].file_name is Some {
        (paths[0].file_name->0)@
    } else {
        "Project"@
    }
}

/// The line is that of the project.
pub open spec fn row_of(r: RecentRow, w: RecentWorkspace) -> bool {
    &&& r.name@ == project_name(w.identity_paths@)
    &&& r.path@ == (if w.identity_paths@.len() > 0 {
        w.identity_paths@[0].path@
    } else {
        ""@
    })
    &&& r.symbol == (if w.is_remote {
        ProjectSymbol::Server
    } else {
        ProjectSymbol::Folder
    })
}

/// How many projects are listed of so many.
pub open spec fn listed(n: nat) -> nat {
    if n < RECENT_LIMIT {
        n
    } else {
        RECENT_LIMIT as nat
    }
}

fn recent_row(w: &RecentWorkspace) -> (r: RecentRow)
    ensures
        row_of(r, *w),
{
    let first = if w.identity_paths.len() > 0 {
        Some(&w.identity_paths[0])
    } else {
        None
    };
    let name = match first {
        Some(p) => match &p.file_name {
            Some(name) => name.clone(),
            None => "Project".to_owned(),
        },
        None => "Project".to_owned(),
    };
    let path = match first {
        Some(p) => p.path.clone(),
        None => "".to_owned(),
    };
    let symbol = if w.is_remote {
        ProjectSymbol::Server
    } else {
        ProjectSymbol::Folder
    };
    RecentRow { name, path, symbol }
}

/// The lines of the list of projects: the first few, once they are known.
pub fn recent_rows(recents: Option<&Vec<RecentWorkspace>>) -> (r: Vec<RecentRow>)
    ensures
        match recents {
            None => r@.len() == 0,
            Some(v) => r@.len() == listed(v@.len()) && (forall|i: int|
                0 <= i < r@.len() ==> row_of(#[trigger] r@[i], v@[i])),
        },
{
    let mut r: Vec<RecentRow> = Vec::new();
    match recents {
        None => {},
        Some(v) => {
            let mut i: usize = 0;
            while i < v.len() && i < RECENT_LIMIT
                invariant
                    i <= v.len(),
                    i <= RECENT_LIMIT,
                    r.len() == i,
                    forall|x: int| 0 <= x < i ==> row_of(#[trigger] r[x], v[x]),
                decreases v.len() - i,
            {
                r.push(recent_row(&v[i]));
                i += 1;
            }
        },
    }
    r
}

/// How a project is opened.
#[derive(Clone, Copy, Debug, PartialEq, Eq, Structural)]
pub enum OpenRecent {
    /// Its folders, in this window.
    InWindow,
    /// By the list of recent projects, which can reach other hosts.
    FromList,
    Nothing,
}

/// How a project is opened: one on this host in this window, if that can hold it.
pub fn open_recent(is_remote: bool, window_holds_projects: bool) -> (r: OpenRecent)
    ensures
        r == opened(is_remote, window_holds_projects),
        r == (if is_remote {
            OpenRecent::FromList
        } else if window_holds_projects {
            OpenRecent::InWindow
        } else {
            OpenRecent::Nothing
        }),
{
    if is_remote {
        OpenRecent::FromList
    } else if window_holds_projects {
        OpenRecent::InWindow
    } else {
        OpenRecent::Nothing
    }
}

/// What to do after an attempt to get the account.
#[derive(Clone, Copy, Debug, PartialEq, Eq, Structural)]
pub enum AccountStep {
    /// Show it.
    Show,
    /// Wait, and try again for this time.
    Retry { attempt: u32 },
    /// Go without.
    GiveUp,
}

/// What to do after an attempt; the first has number zero.
pub open spec fn after_attempt(attempt: u32, fetched: bool) -> AccountStep {
    if fetched {
        AccountStep::Show
    } else if attempt + 1 < ACCOUNT_ATTEMPTS {
        AccountStep::Retry { attempt: (attempt + 1) as u32 }
    } else {
        AccountStep::GiveUp
    }
}

/// What to do after an attempt to get the account; the first has number zero.
pub fn after_account_attempt(attempt: u32, fetched: bool) -> (r: AccountStep)
    ensures
        r == after_attempt(attempt, fetched),
{
    if fetched {
        AccountStep::Show
    } else if attempt < ACCOUNT_ATTEMPTS - 1 {
        AccountStep::Retry { attempt: attempt + 1 }
    } else {
        AccountStep::GiveUp
    }
}

// ---------------------------------------------------------------------------
// The page
// ---------------------------------------------------------------------------

/// What was used, as texts.
pub struct HomeUsage {
    pub tokens: String,
    pub requests: String,
    pub cost: String,
    pub latency: String,
}

/// The account, as far as it is shown.
pub struct HomeAccount {
    pub signed_in: bool,
    pub usage: Option<HomeUsage>,
}

/// A figure.
pub struct HomeFigure {
    pub label: &'static str,
    pub value: String,
}

/// The page.
pub struct VibedevAgentHome {
    pub recent_workspaces: Option<Vec<RecentWorkspace>>,
    pub account: Option<HomeAccount>,
}

/// A button.
pub struct QuickAction {
    pub id: &'static str,
    pub label: &'static str,
}

/// What the page shows, from the top down.
pub struct HomeView {
    pub title: &'static str,
    /// What to do.
    pub hint: &'static str,
    /// Opens a project.
    pub open_project: QuickAction,
    /// The strip of figures.
    pub figures: Option<Vec<HomeFigure>>,
    /// Stands above the projects, where there are any.
    pub heading: Option<&'static str>,
    pub recents: Vec<RecentRow>,
}

/// The figures to show: those of a user who is signed in, once there are any.
pub open spec fn shown_usage(account: Option<HomeAccount>) -> Option<HomeUsage> {
    match account {
        Some(a) => if a.signed_in {
            a.usage
        } else {
            None
        },
        None => None,
    }
}

/// The figures show what was used.
pub open spec fn figures_show(f: Seq<HomeFigure>, u: HomeUsage) -> bool {
    &&& f.len() == 4
    &&& f[0].label@ == "Tokens"@ && f[0].value@ == u.tokens@
    &&& f[1].label@ == "Requests"@ && f[1].value@ == u.requests@
    &&& f[2].label@ == "Cost"@ && f[2].value@ == u.cost@
    &&& f[3].label@ == "Latency"@ && f[3].value@ == u.latency@
}

impl VibedevAgentHome {
    /// A page that knows nothing yet.
    pub fn new() -> (r: Self)
        ensures
            r.recent_workspaces is None,
            r.account is None,
    {
        VibedevAgentHome { recent_workspaces: None, account: None }
    }

    /// What the page shows.
    pub fn render(&self) -> (r: HomeView)
        ensures
            r.title@ == "VibeDev"@,
            r.hint@ == "Open a project to start a conversation"@,
            r.open_project.id@ == "agent-home-open-project"@,
            r.open_project.label@ == "Open Project"@,
            match r.heading {
                Some(h) => r.recents@.len() > 0 && h@ == "Recent Projects"@,
                None => r.recents@.len() == 0,
            },
            match (r.figures, shown_usage(self.account)) {
                (Some(f), Some(u)) => figures_show(f@, u),
                (None, None) => true,
                _ => false,
            },
            match self.recent_workspaces {
                None => r.recents@.len() == 0,
                Some(v) => r.recents@.len() == listed(v@.len()) && (forall|i: int|
                    0 <= i < r.recents@.len() ==> row_of(#[trigger] r.recents@[i], v@[i])),
            },
    {
        let usage = match &self.account {
            Some(a) => if a.signed_in {
                a.usage.as_ref()
            } else {
                None
            },
            None => None,
        };
        let figures = match usage {
            Some(u) => Some(
                vec![
                    HomeFigure { label: "Tokens", value: u.tokens.clone() },
                    HomeFigure { label: "Requests", value: u.requests.clone() },
                    HomeFigure { label: "Cost", value: u.cost.clone() },
                    HomeFigure { label: "Latency", value: u.latency.clone() },
                ],
            ),
            None => None,
        };
        let recents = recent_rows(self.recent_workspaces.as_ref());
        HomeView {
            title: "VibeDev",
            hint: "Open a project to start a conversation",
            open_project: QuickAction { id: "agent-home-open-project", label: "Open Project" },
            figures,
            heading: if recents.len() > 0 {
                Some("Recent Projects")
            } else {
                None
            },
            recents,
        }
    }
}

// ---------------------------------------------------------------------------
// Laws
// ---------------------------------------------------------------------------

/// The first six projects are listed, fewer where there are fewer; each goes by its first
/// folder, and one on another host is marked as such.
pub proof fn law_recent_projects_are_listed(n: nat, r: RecentRow, w: RecentWorkspace)
    requires
        row_of(r, w),
    ensures
        n <= 6 ==> listed(n) == n,
        n > 6 ==> listed(n) == 6,
        w.is_remote ==> r.symbol == ProjectSymbol::Server,
        !w.is_remote ==> r.symbol == ProjectSymbol::Folder,
        w.identity_paths@.len() > 0 ==> r.path@ == w.identity_paths@[0].path@,
        w.identity_paths@.len() > 0 && w.identity_paths@[0].file_name is Some ==> r.name@ == (
        w.identity_paths@[0].file_name->0)@,
        w.identity_paths@.len() == 0 ==> r.name@ == "Project"@ && r.path@ == ""@,
{
}

/// The account is asked for eight times in all, and shown as soon as it comes.
pub proof fn law_account_is_asked_for_eight_times(attempt: u32)
    ensures
        after_attempt(attempt, true) == AccountStep::Show,
        attempt < 7 ==> (after_attempt(attempt, false) matches AccountStep::Retry { attempt: n }
            && n == attempt + 1),
        attempt >= 7 ==> after_attempt(attempt, false) == AccountStep::GiveUp,
{
}

/// Figures are shown of a user who is signed in, once they are known, each under its label.
pub proof fn law_figures_are_those_of_the_user(
    account: HomeAccount,
    f: Seq<HomeFigure>,
    u: HomeUsage,
)
    ensures
        shown_usage(None) is None,
        !account.signed_in ==> shown_usage(Some(account)) is None,
        account.signed_in ==> shown_usage(Some(account)) == account.usage,
        figures_show(f, u) ==> f.len() == 4 && f[0].value@ == u.tokens@ && f[1].value@
            == u.requests@ && f[2].value@ == u.cost@ && f[3].value@ == u.latency@ && f[0].label@
            == "Tokens"@ && f[1].label@ == "Requests"@ && f[2].label@ == "Cost"@ && f[3].label@
            == "Latency"@,
{
}

/// How a recent project is opened.
pub open spec fn opened(is_remote: bool, window_holds_projects: bool) -> OpenRecent {
    match (is_remote, window_holds_projects) {
        (true, _) => OpenRecent::FromList,
        (false, true) => OpenRecent::InWindow,
        (false, false) => OpenRecent::Nothing,
    }
}

/// A project on another host is opened from the list, one on this machine in the window,
/// where that holds projects.
pub proof fn law_recent_projects_are_opened(is_remote: bool, window_holds_projects: bool)
    ensures
        opened(is_remote, window_holds_projects) == OpenRecent::FromList <==> is_remote,
        opened(is_remote, window_holds_projects) == OpenRecent::InWindow <==> !is_remote
            && window_holds_projects,
{
}

} // verus!
