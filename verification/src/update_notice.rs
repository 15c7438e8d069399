//! The notice that a new agent build waits to be applied.

use vstd::prelude::*;
use vstd::string::*;

use crate::auto_update;
use crate::version;
use crate::version::Version;

verus! {

/// What the notice says.
pub const NOTICE: &'static str = "后端有更新 · 立即应用(会中断当前会话),否则下次重启自动应用";

/// What its button says.
pub const APPLY_NOW: &'static str = "立即应用";

/// A staged build is to be announced: it is not the one that was announced last.
pub open spec fn is_news(
    staged: Option<version::VersionModel>,
    last_shown: Option<version::VersionModel>,
) -> bool {
    staged is Some && staged != last_shown
}

/// Whether a staged build is to be announced.
pub fn should_show(staged: Option<&Version>, last_shown: Option<&Version>) -> (r: bool)
    ensures
        r == is_news(
            auto_update::version_model(staged),
            auto_update::version_model(last_shown),
        ),
{
    match staged {
        None => false,
        Some(v) => match last_shown {
            None => true,
            Some(last) => !v.same_as(last),
        },
    }
}

/// What was announced.
#[derive(Debug)]
pub struct AgentUpdateNotice {
    pub last_shown: Option<Version>,
}

impl AgentUpdateNotice {
    /// Nothing was announced.
    pub fn new() -> (r: Self)
        ensures
            r.last_shown is None,
    {
        AgentUpdateNotice { last_shown: None }
    }

    /// Takes what is staged now, and says whether to announce it.
    pub fn maybe_show_agent_update_notice(&mut self, staged: Option<&Version>) -> (r: bool)
        ensures
            r == is_news(
                auto_update::version_model(staged),
                auto_update::parsed_model(old(self).last_shown),
            ),
            auto_update::parsed_model(final(self).last_shown) == (if r {
                auto_update::version_model(staged)
            } else {
                auto_update::parsed_model(old(self).last_shown)
            }),
    {
        let show = match &self.last_shown {
            Some(last) => should_show(staged, Some(last)),
            None => should_show(staged, None),
        };
        if show {
            match staged {
                Some(v) => {
                    self.last_shown = Some(v.duplicate());
                },
                None => {},
            }
        }
        show
    }
}

/// A build is announced once: after it was announced it is no news.
pub proof fn law_build_is_announced_once(
    staged: Option<version::VersionModel>,
    last_shown: Option<version::VersionModel>,
)
    ensures
        is_news(staged, last_shown) ==> !is_news(staged, staged),
        !is_news(None, last_shown),
{
}

/// A build that differs from the one announced last is announced, and so is a first one.
pub proof fn law_new_build_is_announced(
    staged: version::VersionModel,
    last: version::VersionModel,
)
    ensures
        is_news(Some(staged), None),
        staged != last ==> is_news(Some(staged), Some(last)),
{
}

} // verus!
