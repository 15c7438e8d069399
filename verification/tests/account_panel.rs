use vibedev::account_panel::{
    next_panel_step, render_subscriptions, AccountBody, AccountStatus, LoginStep, PanelStep,
    PeriodTexts, Snapshot, SubscriptionTexts, UsageTexts, UsageView, VibedevAccountPanel,
    VibedevCostStatusItem, VibedevUsageDashboard, FAILURES_BEFORE_UNAVAILABLE, LOGIN_POLLS, RETRY_WHILE_CONNECTING_MS,
};
use vibedev::figures::{compact_count, home_count_scale};

fn snapshot(signed_in: bool) -> Snapshot {
    Snapshot {
        signed_in,
        email: None,
        balance: Some("3.40".to_string()),
        plan: Some("pro".to_string()),
        reason: None,
        role: Some("admin".to_string()),
        usage: Some(UsageTexts {
            total_tokens: "1.2M".to_string(),
            today_tokens: "34k".to_string(),
            total_requests: "12".to_string(),
            today_requests: "3".to_string(),
            rpm: "0.5".to_string(),
            total_cost: "$3.42".to_string(),
            today_cost: "$0.10".to_string(),
            avg_latency: "120".to_string(),
            tpm: "12k".to_string(),
        }),
        subscriptions: Some(vec![SubscriptionTexts {
            group_name: "team".to_string(),
            status: "active".to_string(),
            daily: PeriodTexts { used: None, limit: Some("$5.00".to_string()) },
            weekly: PeriodTexts { used: Some("$1.00".to_string()), limit: None },
            monthly: PeriodTexts {
                used: Some("$7.00".to_string()),
                limit: Some("$50".to_string()),
            },
            expires_at: Some("2027-01-01".to_string()),
        }]),
    }
}

#[test]
fn a_few_failures_raise_no_alarm() {
    let mut panel = VibedevAccountPanel::new();
    for _ in 1..FAILURES_BEFORE_UNAVAILABLE {
        assert_eq!(panel.on_poll(None), RETRY_WHILE_CONNECTING_MS);
        assert!(matches!(panel.status, AccountStatus::Connecting));
    }
    assert_eq!(panel.on_poll(None), 20_000);
    assert!(matches!(panel.status, AccountStatus::BackendUnavailable));
    assert_eq!(panel.on_poll(Some(snapshot(true))), 20_000);
    assert!(matches!(panel.status, AccountStatus::Loaded(_)));
    // a blip keeps the last data
    assert_eq!(panel.on_poll(None), RETRY_WHILE_CONNECTING_MS);
    assert!(matches!(panel.status, AccountStatus::Loaded(_)));
    panel.refresh_now(None);
    assert!(matches!(panel.status, AccountStatus::Loaded(_)));
}

#[test]
fn a_login_is_waited_for() {
    let mut panel = VibedevAccountPanel::new();
    assert_eq!(panel.on_login_poll(0, None, true), LoginStep::Continue);
    assert_eq!(panel.on_login_poll(1, Some(snapshot(false)), true), LoginStep::Continue);
    assert_eq!(panel.on_login_poll(2, None, false), LoginStep::Stop);
    assert_eq!(panel.on_login_poll(LOGIN_POLLS - 1, None, true), LoginStep::Stop);
    assert_eq!(panel.on_login_poll(3, Some(snapshot(true)), true), LoginStep::Reconfigure);
    assert_eq!(panel.on_login_poll(3, Some(snapshot(true)), false), LoginStep::Reconfigure);
}

#[test]
fn the_panel_shows_the_account() {
    let mut panel = VibedevAccountPanel::new();
    let view = panel.render();
    assert!(matches!(view.body, AccountBody::Hint(t) if t == "Connecting to backend…"));
    assert!(!view.refresh_models);
    panel.refresh_now(Some(snapshot(false)));
    let view = panel.render();
    assert!(matches!(view.body, AccountBody::SignedOut(t) if t == "Sign in to view your balance."));
    panel.refresh_now(Some(snapshot(true)));
    let view = panel.render();
    assert!(view.refresh_models);
    match view.body {
        AccountBody::SignedIn { hero, usage, subscriptions } => {
            assert_eq!(hero.identity, "Signed in");
            assert_eq!(hero.role.as_deref(), Some("admin"));
            assert_eq!(hero.balance.as_deref(), Some("$3.40"));
            assert_eq!(hero.plan.as_deref(), Some("PRO"));
            let cards = usage.unwrap();
            let titles: Vec<&str> = cards.iter().map(|c| c.title).collect();
            assert_eq!(titles, vec!["Tokens", "Requests", "Cost", "Latency"]);
            assert_eq!(cards[0].sub_line, "today: 34k");
            assert_eq!(cards[1].sub_line, "today 3 · rpm 0.5");
            assert_eq!(cards[2].sub_line, "today $0.10");
            assert_eq!(cards[3].value, "120 ms");
            assert_eq!(cards[3].sub_line, "tpm 12k");
            let entries = subscriptions.unwrap();
            assert_eq!(entries.len(), 1);
            let rows: Vec<(&str, &str)> =
                entries[0].periods.iter().map(|p| (p.label, p.value.as_str())).collect();
            assert_eq!(rows, vec![("Daily", "$0.00 / $5.00"), ("Monthly", "$7.00 / $50")]);
            assert_eq!(entries[0].expiry.as_deref(), Some("expires 2027-01-01"));
        }
        _ => panic!("the account is shown"),
    }
    assert!(render_subscriptions(&vec![]).is_none());
}

#[test]
fn capital_letters_follow_unicode() {
    let mut panel = VibedevAccountPanel::new();
    let mut s = snapshot(true);
    s.plan = Some("größe".to_string());
    panel.refresh_now(Some(s));
    match panel.render().body {
        AccountBody::SignedIn { hero, .. } => assert_eq!(hero.plan.as_deref(), Some("GRÖSSE")),
        _ => panic!("the account is shown"),
    }
}

#[test]
fn the_dashboard_shows_what_was_used() {
    let mut board = VibedevUsageDashboard::new();
    assert!(matches!(board.render(), UsageView::Hint(t) if t == "Connecting to backend…"));
    board.refresh_now(None);
    assert!(matches!(board.render(), UsageView::Hint(t) if t == "Backend not ready. Retrying…"));
    let mut s = snapshot(true);
    s.usage = None;
    board.refresh_now(Some(s));
    assert!(matches!(board.render(), UsageView::Hint(t) if t == "No usage data yet."));
    board.refresh_now(Some(snapshot(false)));
    assert!(matches!(board.render(), UsageView::Cards(c) if c.len() == 4));
}

#[test]
fn the_balance_is_that_of_a_signed_in_user() {
    let mut item = VibedevCostStatusItem::new();
    assert_eq!(item.balance_text, None);
    item.on_poll(Some(&snapshot(true)));
    assert_eq!(item.balance_text.as_deref(), Some("Balance 3.40"));
    item.on_poll(Some(&snapshot(false)));
    assert_eq!(item.balance_text, None);
    item.on_poll(Some(&snapshot(true)));
    item.on_poll(None);
    assert_eq!(item.balance_text, None);
}

#[test]
fn what_a_button_does_ends_with_the_account() {
    assert_eq!(next_panel_step(PanelStep::SignOut, true), PanelStep::FetchAccount);
    assert_eq!(next_panel_step(PanelStep::SignOut, false), PanelStep::Done);
    assert_eq!(next_panel_step(PanelStep::RefreshModels, true), PanelStep::Reconfigure);
    assert_eq!(next_panel_step(PanelStep::RefreshModels, false), PanelStep::Done);
    assert_eq!(next_panel_step(PanelStep::Reconfigure, false), PanelStep::FetchAccount);
    assert_eq!(next_panel_step(PanelStep::FetchAccount, true), PanelStep::Done);
}

fn shown(count: u64) -> String {
    match compact_count(count) {
        Some(s) => format!("{:.*}{}", s.decimals, count as f64 / s.divisor as f64, s.suffix),
        None => format!("{count}"),
    }
}

#[test]
fn counts_are_shortened() {
    assert_eq!(shown(1234567), "1.2M");
    assert_eq!(shown(34000), "34k");
    assert_eq!(shown(999), "999");
    assert_eq!(shown(9999), "10.0k");
    assert_eq!(shown(10000), "10k");
    assert_eq!(shown(3_400_000_000), "3.4B");
    assert_eq!(shown(340_000_000), "340M");
    assert_eq!(home_count_scale(12345).map(|s| (s.divisor, s.suffix, s.decimals)), Some((1000, "k", 1)));
    assert_eq!(home_count_scale(1_234_567).map(|s| (s.divisor, s.suffix, s.decimals)), Some((1_000_000, "M", 1)));
    assert!(home_count_scale(999).is_none());
}
