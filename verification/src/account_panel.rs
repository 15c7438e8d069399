//! The panels that show the account: who is signed in, what was used, what is left.
//!
//! Amounts of money and rates come as texts; how many digits they show is settled
//! before they come here.

use vstd::prelude::*;
use vstd::string::*;

use crate::account;
use crate::lists;
use crate::text;

verus! {

pub const VIBEDEV_ACCOUNT_PANEL_KEY: &'static str = "VibedevAccountPanel";

pub const ACCOUNT_PANEL_NAME: &'static str = "Vibedev Account Panel";

pub const ACCOUNT_PANEL_PRIORITY: u32 = 9;

pub const VIBEDEV_USAGE_DASHBOARD_KEY: &'static str = "VibedevUsageDashboard";

pub const USAGE_DASHBOARD_NAME: &'static str = "Vibedev Usage Dashboard";

pub const USAGE_DASHBOARD_PRIORITY: u32 = 11;

/// After how many failures in a row the backend counts as unavailable.
pub const FAILURES_BEFORE_UNAVAILABLE: u32 = 4;

/// How long to wait before asking again while it does not.
pub const RETRY_WHILE_CONNECTING_MS: u64 = 1500;

/// How often the account is asked for after a login was begun, and how many seconds
/// apart.
pub const LOGIN_POLLS: u32 = 150;

pub const LOGIN_POLL_SECS: u64 = 2;

// ---------------------------------------------------------------------------
// What is known of the account
// ---------------------------------------------------------------------------

/// What was used.
#[derive(Debug)]
pub struct UsageTexts {
    pub total_tokens: String,
    pub today_tokens: String,
    pub total_requests: String,
    pub today_requests: String,
    pub rpm: String,
    pub total_cost: String,
    pub today_cost: String,
    pub avg_latency: String,
    pub tpm: String,
}

/// What was used in a period, and what may be.
#[derive(Debug)]
pub struct PeriodTexts {
    pub used: Option<String>,
    pub limit: Option<String>,
}

/// A subscription.
#[derive(Debug)]
pub struct SubscriptionTexts {
    pub group_name: String,
    pub status: String,
    pub daily: PeriodTexts,
    pub weekly: PeriodTexts,
    pub monthly: PeriodTexts,
    pub expires_at: Option<String>,
}

/// What is known of the account.
#[derive(Debug)]
pub struct Snapshot {
    pub signed_in: bool,
    pub email: Option<String>,
    /// The balance, with two digits behind the point.
    pub balance: Option<String>,
    pub plan: Option<String>,
    /// Why nobody is signed in.
    pub reason: Option<String>,
    pub role: Option<String>,
    pub usage: Option<UsageTexts>,
    pub subscriptions: Option<Vec<SubscriptionTexts>>,
}

/// Where the data of the panel stands.
#[derive(Debug)]
pub enum AccountStatus {
    Connecting,
    BackendUnavailable,
    Loaded(Snapshot),
}

// ---------------------------------------------------------------------------
// The account panel
// ---------------------------------------------------------------------------

/// The account panel.
#[derive(Debug)]
pub struct VibedevAccountPanel {
    pub status: AccountStatus,
    /// How many requests have failed in a row.
    pub failures: u32,
}

/// How many requests have failed in a row after one more.
pub open spec fn next_failures(failures: u32, ok: bool) -> u32 {
    if ok {
        0
    } else if failures < u32::MAX {
        (failures + 1) as u32
    } else {
        failures
    }
}

/// The status after a request: one that succeeded shows its data; a few that failed
/// leave what is shown.
pub open spec fn next_status(
    status: AccountStatus,
    failures: u32,
    snapshot: Option<Snapshot>,
) -> AccountStatus {
    match snapshot {
        Some(s) => AccountStatus::Loaded(s),
        None => if failures >= FAILURES_BEFORE_UNAVAILABLE {
            AccountStatus::BackendUnavailable
        } else {
            status
        },
    }
}

/// How long to wait for the next request: not long while the backend may be coming
/// up.
pub open spec fn next_delay_ms(failures: u32, ok: bool) -> int {
    if ok || failures >= FAILURES_BEFORE_UNAVAILABLE {
        account::ACCOUNT_POLL_SECS * 1000
    } else {
        RETRY_WHILE_CONNECTING_MS as int
    }
}

/// What to do while a login is waited for.
#[derive(Clone, Copy, Debug, PartialEq, Eq, Structural)]
pub enum LoginStep {
    /// Wait, and ask again.
    Continue,
    /// The user is signed in: set up the assistant again, and stop.
    Reconfigure,
    Stop,
}

/// A step of what a button of the panel sets going.
#[derive(Clone, Copy, Debug, PartialEq, Eq, Structural)]
pub enum PanelStep {
    /// Have the backend forget the user.
    SignOut,
    /// Have the backend fetch the models again.
    RefreshModels,
    /// Set up the assistant again.
    Reconfigure,
    /// Ask for the account, and show it.
    FetchAccount,
    Done,
}

/// The step after one that succeeded or failed: a request that the backend refuses
/// leaves everything as it is.
pub open spec fn step_after(step: PanelStep, ok: bool) -> PanelStep {
    match step {
        PanelStep::SignOut => if ok {
            PanelStep::FetchAccount
        } else {
            PanelStep::Done
        },
        PanelStep::RefreshModels => if ok {
            PanelStep::Reconfigure
        } else {
            PanelStep::Done
        },
        PanelStep::Reconfigure => PanelStep::FetchAccount,
        PanelStep::FetchAccount | PanelStep::Done => PanelStep::Done,
    }
}

/// The step after one that succeeded or failed.
pub fn next_panel_step(step: PanelStep, ok: bool) -> (r: PanelStep)
    ensures
        r == step_after(step, ok),
{
    match step {
        PanelStep::SignOut => if ok {
            PanelStep::FetchAccount
        } else {
            PanelStep::Done
        },
        PanelStep::RefreshModels => if ok {
            PanelStep::Reconfigure
        } else {
            PanelStep::Done
        },
        PanelStep::Reconfigure => PanelStep::FetchAccount,
        _ => PanelStep::Done,
    }
}

/// What to do after the request with this number; the first has number zero.
pub open spec fn login_step(poll: u32, signed_in: bool, alive: bool) -> LoginStep {
    if signed_in {
        LoginStep::Reconfigure
    } else if !alive || poll + 1 >= LOGIN_POLLS {
        LoginStep::Stop
    } else {
        LoginStep::Continue
    }
}

impl VibedevAccountPanel {
    /// A panel that waits for the backend.
    pub fn new() -> (r: Self)
        ensures
            r.status == AccountStatus::Connecting,
            r.failures == 0,
    {
        VibedevAccountPanel { status: AccountStatus::Connecting, failures: 0 }
    }

    /// Takes the answer of a regular request, and says how many milliseconds to wait
    /// for the next.
    pub fn on_poll(&mut self, snapshot: Option<Snapshot>) -> (r: u64)
        ensures
            final(self).failures == next_failures(old(self).failures, snapshot is Some),
            final(self).status == next_status(
                old(self).status,
                final(self).failures,
                snapshot,
            ),
            r == next_delay_ms(final(self).failures, snapshot is Some),
    {
        match snapshot {
            Some(s) => {
                self.failures = 0;
                self.status = AccountStatus::Loaded(s);
                account::ACCOUNT_POLL_SECS * 1000
            },
            None => {
                if self.failures < u32::MAX {
                    self.failures = self.failures + 1;
                }
                if self.failures >= FAILURES_BEFORE_UNAVAILABLE {
                    self.status = AccountStatus::BackendUnavailable;
                    account::ACCOUNT_POLL_SECS * 1000
                } else {
                    RETRY_WHILE_CONNECTING_MS
                }
            },
        }
    }

    /// Takes the answer of a request in between: one that failed changes nothing.
    pub fn refresh_now(&mut self, snapshot: Option<Snapshot>)
        ensures
            final(self).failures == old(self).failures,
            final(self).status == (match snapshot {
                Some(s) => AccountStatus::Loaded(s),
                None => old(self).status,
            }),
    {
        match snapshot {
            Some(s) => {
                self.status = AccountStatus::Loaded(s);
            },
            None => {},
        }
    }

    /// Takes the answer of a request while a login is waited for; `alive` says
    /// whether the panel is still there to take it.
    pub fn on_login_poll(&mut self, poll: u32, snapshot: Option<Snapshot>, alive: bool) -> (r:
        LoginStep)
        ensures
            r == login_step(
                poll,
                match snapshot {
                    Some(s) => s.signed_in,
                    None => false,
                },
                alive,
            ),
            final(self).failures == old(self).failures,
            final(self).status == (match snapshot {
                Some(s) => if alive {
                    AccountStatus::Loaded(s)
                } else {
                    old(self).status
                },
                None => old(self).status,
            }),
    {
        let signed_in = match &snapshot {
            Some(s) => s.signed_in,
            None => false,
        };
        if alive {
            self.refresh_now(snapshot);
        }
        if signed_in {
            LoginStep::Reconfigure
        } else if !alive || poll >= LOGIN_POLLS - 1 {
            LoginStep::Stop
        } else {
            LoginStep::Continue
        }
    }
}

/// A few failures do not raise an alarm: what is shown stays until so many requests
/// in a row have failed, and comes back with the first that succeeds.
pub proof fn law_few_failures_raise_no_alarm(
    status: AccountStatus,
    failures: u32,
    snapshot: Option<Snapshot>,
)
    ensures
        ({
            let n = next_failures(failures, snapshot is Some);
            let after = next_status(status, n, snapshot);
            &&& after is BackendUnavailable && !(status is BackendUnavailable) ==> failures + 1
                >= FAILURES_BEFORE_UNAVAILABLE && snapshot is None
            &&& snapshot is Some ==> after == AccountStatus::Loaded(snapshot->0) && n == 0
        }),
{
}

// ---------------------------------------------------------------------------
// What the panels show
// ---------------------------------------------------------------------------

/// The capital letters of a text, as `str::to_uppercase` gives them.
pub uninterp spec fn uppercased(s: Seq<char>) -> Seq<char>;

/// `str::to_uppercase`: the text in capital letters, as a function of the text alone.
#[verifier::external_body]
fn to_uppercase(s: &str) -> (r: String)
    ensures
        r@ == uppercased(s@),
{
    s.to_uppercase()
}

/// Who is signed in.
pub struct Hero {
    pub identity: String,
    pub role: Option<String>,
    pub balance: Option<String>,
    pub plan: Option<String>,
}

/// The text of an optional part, with something before it.
pub open spec fn with_prefix(prefix: Seq<char>, s: Option<Seq<char>>) -> Option<Seq<char>> {
    match s {
        Some(t) => Some(prefix + t),
        None => None,
    }
}

/// The text of a plan.
pub open spec fn plan_text(plan: Option<Seq<char>>) -> Option<Seq<char>> {
    match plan {
        Some(p) => Some(uppercased(p)),
        None => None,
    }
}

/// The head shows this.
pub open spec fn hero_shows(h: Hero, s: Snapshot) -> bool {
    &&& h.identity@ == match s.email {
        Some(e) => e@,
        None => "Signed in"@,
    }
    &&& lists::text_of(h.role) == lists::text_of(s.role)
    &&& lists::text_of(h.balance) == with_prefix("$"@, lists::text_of(s.balance))
    &&& lists::text_of(h.plan) == plan_text(lists::text_of(s.plan))
}

/// Who is signed in, and with what balance and plan.
pub fn render_hero(s: &Snapshot) -> (r: Hero)
    ensures
        hero_shows(r, *s),
{
    Hero {
        identity: match &s.email {
            Some(e) => e.clone(),
            None => "Signed in".to_owned(),
        },
        role: lists::copy_text(&s.role),
        balance: match &s.balance {
            Some(b) => Some(text::join("$", b.as_str())),
            None => None,
        },
        plan: match &s.plan {
            Some(p) => Some(to_uppercase(p.as_str())),
            None => None,
        },
    }
}

/// A figure.
pub struct KpiCard {
    pub title: &'static str,
    pub value: String,
    pub sub_line: String,
}

/// The card shows this.
pub open spec fn card_shows(
    c: KpiCard,
    title: Seq<char>,
    value: Seq<char>,
    sub_line: Seq<char>,
) -> bool {
    c.title@ == title && c.value@ == value && c.sub_line@ == sub_line
}

/// The cards show what was used.
pub open spec fn cards_show(cards: Seq<KpiCard>, u: UsageTexts) -> bool {
    &&& cards.len() == 4
    &&& card_shows(cards[0], "Tokens"@, u.total_tokens@, "today: "@ + u.today_tokens@)
    &&& card_shows(
        cards[1],
        "Requests"@,
        u.total_requests@,
        "today "@ + u.today_requests@ + " · rpm "@ + u.rpm@,
    )
    &&& card_shows(cards[2], "Cost"@, u.total_cost@, "today "@ + u.today_cost@)
    &&& card_shows(cards[3], "Latency"@, u.avg_latency@ + " ms"@, "tpm "@ + u.tpm@)
}

/// What was used, as four figures.
pub fn render_kpi_row(u: &UsageTexts) -> (r: Vec<KpiCard>)
    ensures
        cards_show(r@, *u),
{
    let requests = text::join("today ", u.today_requests.as_str());
    let requests = text::join(requests.as_str(), " · rpm ");
    vec![
        KpiCard {
            title: "Tokens",
            value: u.total_tokens.clone(),
            sub_line: text::join("today: ", u.today_tokens.as_str()),
        },
        KpiCard {
            title: "Requests",
            value: u.total_requests.clone(),
            sub_line: text::join(requests.as_str(), u.rpm.as_str()),
        },
        KpiCard {
            title: "Cost",
            value: u.total_cost.clone(),
            sub_line: text::join("today ", u.today_cost.as_str()),
        },
        KpiCard {
            title: "Latency",
            value: text::join(u.avg_latency.as_str(), " ms"),
            sub_line: text::join("tpm ", u.tpm.as_str()),
        },
    ]
}

/// A period of a subscription.
pub struct PeriodRow {
    pub label: &'static str,
    pub value: String,
}

/// A subscription.
pub struct SubscriptionEntry {
    pub group_name: String,
    pub status: String,
    pub periods: Vec<PeriodRow>,
    pub expiry: Option<String>,
}

/// The lines of a period: one where it has a limit, else none.
pub open spec fn period_lines(label: Seq<char>, p: PeriodTexts) -> Seq<(Seq<char>, Seq<char>)> {
    match p.limit {
        Some(limit) => {
            let used = match p.used {
                Some(u) => u@,
                None => "$0.00"@,
            };
            seq![(label, used + " / "@ + limit@)]
        },
        None => Seq::empty(),
    }
}

/// The lines of a subscription.
pub open spec fn subscription_lines(s: SubscriptionTexts) -> Seq<(Seq<char>, Seq<char>)> {
    period_lines("Daily"@, s.daily) + period_lines("Weekly"@, s.weekly) + period_lines(
        "Monthly"@,
        s.monthly,
    )
}

/// The texts of the lines.
pub open spec fn row_texts(rows: Seq<PeriodRow>) -> Seq<(Seq<char>, Seq<char>)> {
    Seq::new(rows.len(), |i: int| (rows[i].label@, rows[i].value@))
}

/// The entry shows the subscription.
pub open spec fn entry_shows(e: SubscriptionEntry, s: SubscriptionTexts) -> bool {
    &&& e.group_name@ == s.group_name@
    &&& e.status@ == s.status@
    &&& row_texts(e.periods@) == subscription_lines(s)
    &&& lists::text_of(e.expiry) == with_prefix("expires "@, lists::text_of(s.expires_at))
}

fn push_period(rows: &mut Vec<PeriodRow>, label: &'static str, p: &PeriodTexts)
    ensures
        row_texts(final(rows)@) == row_texts(old(rows)@) + period_lines(label@, *p),
{
    let ghost before = row_texts(rows@);
    match &p.limit {
        Some(limit) => {
            let used = match &p.used {
                Some(u) => u.clone(),
                None => "$0.00".to_owned(),
            };
            let value = text::join(text::join(used.as_str(), " / ").as_str(), limit.as_str());
            rows.push(PeriodRow { label, value });
            assert(row_texts(rows@) =~= before + period_lines(label@, *p));
        },
        None => {
            assert(row_texts(rows@) =~= before + period_lines(label@, *p));
        },
    }
}

/// A subscription: its periods that have a limit, and when it ends.
pub fn render_subscription_entry(s: &SubscriptionTexts) -> (r: SubscriptionEntry)
    ensures
        entry_shows(r, *s),
{
    let mut periods: Vec<PeriodRow> = Vec::new();
    assert(row_texts(periods@) =~= Seq::empty());
    push_period(&mut periods, "Daily", &s.daily);
    assert(row_texts(periods@) =~= period_lines("Daily"@, s.daily));
    push_period(&mut periods, "Weekly", &s.weekly);
    push_period(&mut periods, "Monthly", &s.monthly);
    SubscriptionEntry {
        group_name: s.group_name.clone(),
        status: s.status.clone(),
        periods,
        expiry: match &s.expires_at {
            Some(e) => Some(text::join("expires ", e.as_str())),
            None => None,
        },
    }
}

/// The entries show the subscriptions.
pub open spec fn entries_show(
    entries: Seq<SubscriptionEntry>,
    subscriptions: Seq<SubscriptionTexts>,
) -> bool {
    &&& entries.len() == subscriptions.len()
    &&& forall|i: int|
        0 <= i < entries.len() ==> entry_shows(#[trigger] entries[i], subscriptions[i])
}

/// The subscriptions; `None` where there are none, and so no card for them.
pub fn render_subscriptions(subscriptions: &Vec<SubscriptionTexts>) -> (r: Option<
    Vec<SubscriptionEntry>,
>)
    ensures
        match r {
            Some(entries) => subscriptions@.len() > 0 && entries_show(
                entries@,
                subscriptions@,
            ),
            None => subscriptions@.len() == 0,
        },
{
    if subscriptions.len() == 0 {
        return None;
    }
    let mut r: Vec<SubscriptionEntry> = Vec::new();
    let mut i: usize = 0;
    while i < subscriptions.len()
        invariant
            i <= subscriptions.len(),
            r.len() == i,
            forall|x: int| 0 <= x < i ==> entry_shows(#[trigger] r[x], subscriptions[x]),
        decreases subscriptions.len() - i,
    {
        r.push(render_subscription_entry(&subscriptions[i]));
        i += 1;
    }
    Some(r)
}

/// What the account panel shows below its title.
pub enum AccountBody {
    /// A hint.
    Hint(String),
    /// A hint, and a button to sign in.
    SignedOut(String),
    /// The account, and a button to sign out.
    SignedIn {
        hero: Hero,
        usage: Option<Vec<KpiCard>>,
        subscriptions: Option<Vec<SubscriptionEntry>>,
    },
}

/// What the account panel shows; there is always a button to refresh.
pub struct AccountView {
    pub body: AccountBody,
    /// There is a button to fetch the models again.
    pub refresh_models: bool,
}

/// Somebody is signed in.
pub open spec fn is_signed_in(status: AccountStatus) -> bool {
    status matches AccountStatus::Loaded(s) && s.signed_in
}

/// The body shows the status.
pub open spec fn body_shows(b: AccountBody, status: AccountStatus) -> bool {
    match status {
        AccountStatus::Connecting => b matches AccountBody::Hint(t) && t@
            == "Connecting to backend…"@,
        AccountStatus::BackendUnavailable => b matches AccountBody::Hint(t) && t@
            == "Backend not ready. Retrying…"@,
        AccountStatus::Loaded(s) => if s.signed_in {
            b matches AccountBody::SignedIn { hero, usage, subscriptions } && hero_shows(hero, s)
                && (match (usage, s.usage) {
                (Some(cards), Some(u)) => cards_show(cards@, u),
                (None, None) => true,
                _ => false,
            }) && (match (subscriptions, s.subscriptions) {
                (Some(entries), Some(v)) => v@.len() > 0 && entries_show(entries@, v@),
                (None, Some(v)) => v@.len() == 0,
                (None, None) => true,
                _ => false,
            })
        } else {
            b matches AccountBody::SignedOut(t) && t@ == match s.reason {
                Some(reason) => reason@,
                None => "Sign in to view your balance."@,
            }
        },
    }
}

impl VibedevAccountPanel {
    /// What the panel shows.
    pub fn render(&self) -> (r: AccountView)
        ensures
            body_shows(r.body, self.status),
            r.refresh_models == is_signed_in(self.status),
    {
        match &self.status {
            AccountStatus::Connecting => AccountView {
                body: AccountBody::Hint("Connecting to backend…".to_owned()),
                refresh_models: false,
            },
            AccountStatus::BackendUnavailable => AccountView {
                body: AccountBody::Hint("Backend not ready. Retrying…".to_owned()),
                refresh_models: false,
            },
            AccountStatus::Loaded(s) => if s.signed_in {
                AccountView {
                    body: AccountBody::SignedIn {
                        hero: render_hero(s),
                        usage: match &s.usage {
                            Some(u) => Some(render_kpi_row(u)),
                            None => None,
                        },
                        subscriptions: match &s.subscriptions {
                            Some(v) => render_subscriptions(v),
                            None => None,
                        },
                    },
                    refresh_models: true,
                }
            } else {
                AccountView {
                    body: AccountBody::SignedOut(
                        match &s.reason {
                            Some(reason) => reason.clone(),
                            None => "Sign in to view your balance.".to_owned(),
                        },
                    ),
                    refresh_models: false,
                }
            },
        }
    }
}

// ---------------------------------------------------------------------------
// The dashboard
// ---------------------------------------------------------------------------

/// The dashboard of what was used.
#[derive(Debug)]
pub struct VibedevUsageDashboard {
    pub status: AccountStatus,
}

/// What the dashboard shows.
pub enum UsageView {
    Hint(String),
    Cards(Vec<KpiCard>),
}

/// The dashboard shows the status.
pub open spec fn usage_shows(v: UsageView, status: AccountStatus) -> bool {
    match status {
        AccountStatus::Connecting => v matches UsageView::Hint(t) && t@
            == "Connecting to backend…"@,
        AccountStatus::BackendUnavailable => v matches UsageView::Hint(t) && t@
            == "Backend not ready. Retrying…"@,
        AccountStatus::Loaded(s) => match s.usage {
            Some(u) => v matches UsageView::Cards(cards) && cards_show(cards@, u),
            None => v matches UsageView::Hint(t) && t@ == "No usage data yet."@,
        },
    }
}

impl VibedevUsageDashboard {
    /// A dashboard that waits for the backend.
    pub fn new() -> (r: Self)
        ensures
            r.status == AccountStatus::Connecting,
    {
        VibedevUsageDashboard { status: AccountStatus::Connecting }
    }

    /// Takes the answer of a request, regular or not.
    pub fn refresh_now(&mut self, snapshot: Option<Snapshot>)
        ensures
            final(self).status == (match snapshot {
                Some(s) => AccountStatus::Loaded(s),
                None => AccountStatus::BackendUnavailable,
            }),
    {
        self.status = match snapshot {
            Some(s) => AccountStatus::Loaded(s),
            None => AccountStatus::BackendUnavailable,
        };
    }

    /// What the dashboard shows.
    pub fn render(&self) -> (r: UsageView)
        ensures
            usage_shows(r, self.status),
    {
        match &self.status {
            AccountStatus::Connecting => UsageView::Hint("Connecting to backend…".to_owned()),
            AccountStatus::BackendUnavailable => UsageView::Hint(
                "Backend not ready. Retrying…".to_owned(),
            ),
            AccountStatus::Loaded(s) => match &s.usage {
                Some(u) => UsageView::Cards(render_kpi_row(u)),
                None => UsageView::Hint("No usage data yet.".to_owned()),
            },
        }
    }
}

// ---------------------------------------------------------------------------
// The status bar
// ---------------------------------------------------------------------------

/// The balance in the status bar.
#[derive(Debug)]
pub struct VibedevCostStatusItem {
    /// What is shown; `None` shows nothing.
    pub balance_text: Option<String>,
}

/// What the status bar shows of the account: the balance, but only of a user who is
/// signed in.
pub open spec fn balance_shown(snapshot: Option<&Snapshot>) -> Option<Seq<char>> {
    match snapshot {
        Some(s) => if s.signed_in {
            with_prefix("Balance "@, lists::text_of(s.balance))
        } else {
            None
        },
        None => None,
    }
}

impl VibedevCostStatusItem {
    /// An item that shows nothing yet.
    pub fn new() -> (r: Self)
        ensures
            r.balance_text is None,
    {
        VibedevCostStatusItem { balance_text: None }
    }

    /// Takes the answer of a request; `None` where it failed.
    pub fn on_poll(&mut self, snapshot: Option<&Snapshot>)
        ensures
            lists::text_of(final(self).balance_text) == balance_shown(snapshot),
    {
        self.balance_text = match snapshot {
            Some(s) => if s.signed_in {
                match &s.balance {
                    Some(b) => Some(text::join("Balance ", b.as_str())),
                    None => None,
                }
            } else {
                None
            },
            None => None,
        };
    }
}

// ---------------------------------------------------------------------------
// Laws
// ---------------------------------------------------------------------------

/// The fourth failure in a row, and every further one, shows that the backend is not there;
/// up to then what is shown stays. Until then it is asked again after a second and a half,
/// and otherwise every twenty seconds.
pub proof fn law_alarm_comes_with_the_fourth_failure(status: AccountStatus, failures: u32)
    ensures
        ({
            let n = next_failures(failures, false);
            &&& failures < u32::MAX ==> n == failures + 1
            &&& n >= failures
            &&& failures < 3 ==> next_status(status, n, None) == status && next_delay_ms(n, false)
                == 1_500
            &&& failures >= 3 ==> next_status(status, n, None) == AccountStatus::BackendUnavailable
                && next_delay_ms(n, false) == 20_000
            &&& next_failures(failures, true) == 0
            &&& next_delay_ms(0, true) == 20_000
        }),
{
}

/// While a login is waited for the account is asked for, a hundred and fifty times at most,
/// until somebody is signed in, and no longer than the panel is there.
pub proof fn law_login_is_waited_for(poll: u32, alive: bool)
    ensures
        login_step(poll, true, alive) == LoginStep::Reconfigure,
        login_step(poll, false, false) == LoginStep::Stop,
        poll < 149 ==> login_step(poll, false, true) == LoginStep::Continue,
        poll >= 149 ==> login_step(poll, false, true) == LoginStep::Stop,
{
}

/// Who signs out, or has the models fetched again, sees the account afterwards; new models
/// reach the assistant before that. What the backend refuses changes nothing.
pub proof fn law_buttons_end_with_the_account(ok: bool)
    ensures
        step_after(PanelStep::SignOut, true) == PanelStep::FetchAccount,
        step_after(PanelStep::SignOut, false) == PanelStep::Done,
        step_after(PanelStep::RefreshModels, true) == PanelStep::Reconfigure,
        step_after(PanelStep::RefreshModels, false) == PanelStep::Done,
        step_after(PanelStep::Reconfigure, ok) == PanelStep::FetchAccount,
        step_after(PanelStep::FetchAccount, ok) == PanelStep::Done,
        step_after(PanelStep::Done, ok) == PanelStep::Done,
{
}

/// Nothing of an account is shown to somebody who is not signed in; somebody who is sees
/// their own address, balance and figures.
pub proof fn law_account_is_shown_to_its_user(b: AccountBody, s: Snapshot)
    requires
        body_shows(b, AccountStatus::Loaded(s)),
    ensures
        !s.signed_in ==> b is SignedOut,
        s.signed_in ==> (b matches AccountBody::SignedIn { hero, usage, subscriptions } && (
        s.email is Some ==> hero.identity@ == (s.email->0)@) && (s.balance is Some ==> (
        hero.balance matches Some(t) && t@ == "$"@ + (s.balance->0)@)) && (s.balance is None
            ==> hero.balance is None) && (usage is Some <==> s.usage is Some)),
        s.signed_in && s.usage is Some ==> (b matches AccountBody::SignedIn { usage, .. } && (
        usage matches Some(cards) && cards@.len() == 4 && cards@[0].value@
            == (s.usage->0).total_tokens@ && cards@[1].value@ == (s.usage->0).total_requests@
            && cards@[2].value@ == (s.usage->0).total_cost@ && cards@[3].value@
            == (s.usage->0).avg_latency@ + " ms"@)),
{
}

/// The cards tell what was used in all, and what today.
pub proof fn law_cards_tell_all_and_today(cards: Seq<KpiCard>, u: UsageTexts)
    requires
        cards_show(cards, u),
    ensures
        cards[0].title@ == "Tokens"@ && cards[0].sub_line@ == "today: "@ + u.today_tokens@,
        cards[1].title@ == "Requests"@ && cards[1].sub_line@ == "today "@ + u.today_requests@
            + " · rpm "@ + u.rpm@,
        cards[2].title@ == "Cost"@ && cards[2].sub_line@ == "today "@ + u.today_cost@,
        cards[3].title@ == "Latency"@ && cards[3].sub_line@ == "tpm "@ + u.tpm@,
{
}

/// A period is listed exactly where it has a limit: what was used of it stands before the
/// limit, and is nothing where it is not known.
pub proof fn law_periods_with_limits_are_listed(label: Seq<char>, p: PeriodTexts)
    ensures
        p.limit is None ==> period_lines(label, p).len() == 0,
        p.limit is Some ==> period_lines(label, p).len() == 1 && period_lines(label, p)[0].0
            == label,
        p.limit is Some && p.used is Some ==> period_lines(label, p)[0].1 == (p.used->0)@ + " / "@
            + (p.limit->0)@,
        p.limit is Some && p.used is None ==> period_lines(label, p)[0].1 == "$0.00"@ + " / "@
            + (p.limit->0)@,
{
}

/// A subscription with all its limits lists the day, the week and the month, in this order.
pub proof fn law_subscription_lists_its_periods(e: SubscriptionEntry, s: SubscriptionTexts)
    requires
        entry_shows(e, s),
    ensures
        e.group_name@ == s.group_name@,
        e.status@ == s.status@,
        s.daily.limit is Some && s.weekly.limit is Some && s.monthly.limit is Some
            ==> e.periods@.len() == 3 && e.periods@[0].label@ == "Daily"@ && e.periods@[1].label@
            == "Weekly"@ && e.periods@[2].label@ == "Monthly"@,
        s.daily.limit is None && s.weekly.limit is None && s.monthly.limit is None
            ==> e.periods@.len() == 0,
        s.expires_at is Some ==> (e.expiry matches Some(t) && t@ == "expires "@
            + (s.expires_at->0)@),
        s.expires_at is None ==> e.expiry is None,
{
    let rows = row_texts(e.periods@);
    assert(rows.len() == e.periods@.len());
    if e.periods@.len() == 3 {
        assert(rows[0].0 == e.periods@[0].label@ && rows[1].0 == e.periods@[1].label@ && rows[2].0
            == e.periods@[2].label@);
    }
}

/// The status bar shows the balance of somebody who is signed in, and nothing else.
pub proof fn law_status_bar_shows_the_balance(s: Snapshot)
    ensures
        balance_shown(None) is None,
        !s.signed_in ==> balance_shown(Some(&s)) is None,
        s.signed_in && s.balance is Some ==> balance_shown(Some(&s)) == Some(
            "Balance "@ + (s.balance->0)@,
        ),
        s.balance is None ==> balance_shown(Some(&s)) is None,
{
}

/// The dashboard shows figures exactly where there are any.
pub proof fn law_dashboard_shows_figures(v: UsageView, s: Snapshot)
    requires
        usage_shows(v, AccountStatus::Loaded(s)),
    ensures
        s.usage is Some ==> (v matches UsageView::Cards(cards) && cards@.len() == 4
            && cards@[0].value@ == (s.usage->0).total_tokens@),
        s.usage is None ==> v is Hint,
{
}

/// While there is no account to show, it is said why; a user without an address is said to be
/// signed in; and every subscription is listed, with its own name and state.
pub proof fn law_panel_says_how_things_stand(
    b: AccountBody,
    s: Snapshot,
    entries: Seq<SubscriptionEntry>,
    subscriptions: Seq<SubscriptionTexts>,
    i: int,
)
    ensures
        body_shows(b, AccountStatus::Connecting) ==> (b matches AccountBody::Hint(t) && t@
            == "Connecting to backend…"@),
        body_shows(b, AccountStatus::BackendUnavailable) ==> (b matches AccountBody::Hint(t) && t@
            == "Backend not ready. Retrying…"@),
        body_shows(b, AccountStatus::Loaded(s)) && !s.signed_in && s.reason is None ==> (
        b matches AccountBody::SignedOut(t) && t@ == "Sign in to view your balance."@),
        body_shows(b, AccountStatus::Loaded(s)) && !s.signed_in && s.reason is Some ==> (
        b matches AccountBody::SignedOut(t) && t@ == (s.reason->0)@),
        body_shows(b, AccountStatus::Loaded(s)) && s.signed_in && s.email is None ==> (
        b matches AccountBody::SignedIn { hero, .. } && hero.identity@ == "Signed in"@),
        body_shows(b, AccountStatus::Loaded(s)) && s.signed_in ==> (
        b matches AccountBody::SignedIn { subscriptions: shown, .. } && (shown is Some <==> (
        s.subscriptions is Some && (s.subscriptions->0)@.len() > 0)) && (shown is Some ==> (
        shown->0)@.len() == (s.subscriptions->0)@.len())),
        entries_show(entries, subscriptions) ==> entries.len() == subscriptions.len(),
        entries_show(entries, subscriptions) && 0 <= i < subscriptions.len()
            ==> entries[i].group_name@ == subscriptions[i].group_name@ && entries[i].status@
            == subscriptions[i].status@,
{
    if entries_show(entries, subscriptions) && 0 <= i < subscriptions.len() {
        assert(entry_shows(entries[i], subscriptions[i]));
    }
}

/// A plan is shown in capitals, where there is one.
pub proof fn law_plan_is_shown_in_capitals(h: Hero, s: Snapshot)
    requires
        hero_shows(h, s),
    ensures
        s.plan is Some ==> (h.plan matches Some(p) && p@ == uppercased((s.plan->0)@)),
        s.plan is None ==> h.plan is None,
        s.role is Some ==> (h.role matches Some(r) && r@ == (s.role->0)@),
        s.role is None ==> h.role is None,
{
}

} // verus!
