//! The logic of VibeDev: an editor with an agent at its side.
//!
//! The agent runs as a process of its own, the sidecar, which this library starts,
//! watches, updates and talks to. What the windows show is described here as plain
//! values. Every function states what it returns, and Verus proves it; what reads,
//! writes, sends and draws lies outside.
//!
//! - The sidecar: [`launcher`], [`agent_swap`], [`agent_stage`], [`account`],
//!   [`url_handler`], [`byok`], [`inline_assistant`], [`edit_prediction`].
//! - Other hosts: [`remote_agent`], [`remote_tunnel`], [`ssh_kernel`].
//! - Updates: [`auto_update`], [`install`], [`release_cache`], [`update_check`],
//!   [`update_notice`].
//! - Agents, models and settings: [`agent_server`], [`language_models`],
//!   [`migrations`], [`session_prefs`], [`global_skills`], [`onboarding`], [`i18n`].
//! - What is shown: [`fanout`], [`right_dock`], [`dock_view`], [`agent_panel`],
//!   [`session_sidebar`], [`agent_home`], [`agent_window`], [`account_panel`],
//!   [`figures`].
//! - The ground: [`text`], [`lists`], [`table`], [`ranking`], [`json`], [`version`],
//!   [`build_info`].

pub mod account;
pub mod account_panel;
pub mod agent_home;
pub mod agent_panel;
pub mod agent_server;
pub mod agent_stage;
pub mod agent_swap;
pub mod agent_window;
pub mod auto_update;
pub mod build_info;
pub mod byok;
pub mod dock_view;
pub mod edit_prediction;
pub mod fanout;
pub mod figures;
pub mod global_skills;
pub mod i18n;
pub mod inline_assistant;
pub mod install;
pub mod json;
pub mod language_models;
pub mod launcher;
pub mod lists;
pub mod migrations;
pub mod onboarding;
pub mod ranking;
pub mod release_cache;
pub mod remote_agent;
pub mod remote_tunnel;
pub mod right_dock;
pub mod session_prefs;
pub mod session_sidebar;
pub mod ssh_kernel;
pub mod table;
pub mod text;
pub mod update_check;
pub mod update_notice;
pub mod url_handler;
pub mod version;
