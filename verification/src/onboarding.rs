//! What a new user is told of providers and plans.

use vstd::prelude::*;
use vstd::string::*;

use crate::text;

verus! {

/// The provider of the editor's own cloud.
pub const CLOUD_PROVIDER_ID: &'static str = "zed.dev";

/// A provider that is shown.
#[derive(Debug)]
pub struct VisibleProvider {
    pub id: String,
    pub authenticated: bool,
}

/// The user has set this one up: somebody is signed in to it, and it is not the
/// cloud.
pub open spec fn is_configured(p: VisibleProvider) -> bool {
    p.authenticated && p.id@ != CLOUD_PROVIDER_ID@
}

/// A change of the registry of providers.
#[derive(Clone, Copy, Debug, PartialEq, Eq, Structural)]
pub enum RegistryEvent {
    ProviderStateChanged,
    AddedProvider,
    RemovedProvider,
    ProvidersChanged,
    /// Anything else.
    Other,
}

/// What a new user sees of the providers.
#[derive(Debug)]
pub struct AgentPanelOnboarding {
    pub has_configured_providers: bool,
}

/// The user has set up one of these.
pub open spec fn any_configured(providers: Seq<VisibleProvider>) -> bool {
    exists|i: int| 0 <= i < providers.len() && is_configured(#[trigger] providers[i])
}

impl AgentPanelOnboarding {
    /// Whether the user has set up a provider.
    pub fn has_configured_providers(providers: &Vec<VisibleProvider>) -> (r: bool)
        ensures
            r == any_configured(providers@),
    {
        let mut i: usize = 0;
        while i < providers.len()
            invariant
                i <= providers.len(),
                forall|j: int| 0 <= j < i ==> !is_configured(#[trigger] providers@[j]),
            decreases providers.len() - i,
        {
            if providers[i].authenticated && !text::same(
                providers[i].id.as_str(),
                CLOUD_PROVIDER_ID,
            ) {
                assert(is_configured(providers@[i as int]));
                return true;
            }
            i += 1;
        }
        false
    }

    /// What is known at first.
    pub fn new(providers: &Vec<VisibleProvider>) -> (r: Self)
        ensures
            r.has_configured_providers == any_configured(providers@),
    {
        AgentPanelOnboarding {
            has_configured_providers: AgentPanelOnboarding::has_configured_providers(providers),
        }
    }

    /// Takes a change of the registry: one of a provider has the providers looked at
    /// again.
    pub fn on_registry_event(&mut self, event: RegistryEvent, providers: &Vec<VisibleProvider>)
        ensures
            final(self).has_configured_providers == (if event == RegistryEvent::Other {
                old(self).has_configured_providers
            } else {
                any_configured(providers@)
            }),
    {
        match event {
            RegistryEvent::Other => {},
            _ => {
                self.has_configured_providers =
                AgentPanelOnboarding::has_configured_providers(providers);
            },
        }
    }
}

/// The texts of a list of points.
pub open spec fn points(v: Seq<&'static str>) -> Seq<Seq<char>> {
    Seq::new(v.len(), |i: int| v[i]@)
}

/// The plans, point by point.
#[derive(Clone, Copy, Debug)]
pub struct PlanDefinitions;

impl PlanDefinitions {
    pub fn free_plan(&self) -> (r: Vec<&'static str>)
        ensures
            points(r@) == seq![
                "2,000 次接受的编辑预测"@,
                "使用您的 AI API 密钥无限制发送提示词"@,
                "无限制使用外部 Agent"@,
            ],
    {
        let r = vec![
            "2,000 次接受的编辑预测",
            "使用您的 AI API 密钥无限制发送提示词",
            "无限制使用外部 Agent",
        ];
        assert(points(r@) =~= seq![
            "2,000 次接受的编辑预测"@,
            "使用您的 AI API 密钥无限制发送提示词"@,
            "无限制使用外部 Agent"@,
        ]);
        r
    }

    pub fn sign_in_upsell(&self) -> (r: Vec<&'static str>)
        ensures
            points(r@) == seq![
                "无限制编辑预测"@,
                "VibeDev Agent 中价值 $20 的 Token"@,
                "无需信用卡"@,
            ],
    {
        let r = vec!["无限制编辑预测", "VibeDev Agent 中价值 $20 的 Token", "无需信用卡"];
        assert(points(r@) =~= seq![
            "无限制编辑预测"@,
            "VibeDev Agent 中价值 $20 的 Token"@,
            "无需信用卡"@,
        ]);
        r
    }

    /// The trial; its length is named on request.
    pub fn pro_trial(&self, period: bool) -> (r: Vec<&'static str>)
        ensures
            points(r@) == (if period {
                seq![
                    "VibeDev Agent 中价值 $20 的 Token"@,
                    "无限制编辑预测"@,
                    "试用 14 天,无需信用卡"@,
                ]
            } else {
                seq!["VibeDev Agent 中价值 $20 的 Token"@, "无限制编辑预测"@]
            }),
    {
        let mut r = vec!["VibeDev Agent 中价值 $20 的 Token", "无限制编辑预测"];
        if period {
            r.push("试用 14 天,无需信用卡");
            assert(points(r@) =~= seq![
                "VibeDev Agent 中价值 $20 的 Token"@,
                "无限制编辑预测"@,
                "试用 14 天,无需信用卡"@,
            ]);
        } else {
            assert(points(r@) =~= seq![
                "VibeDev Agent 中价值 $20 的 Token"@,
                "无限制编辑预测"@,
            ]);
        }
        r
    }

    pub fn pro_plan(&self) -> (r: Vec<&'static str>)
        ensures
            points(r@) == seq![
                "VibeDev Agent 中价值 $5 的 Token"@,
                "超过 $5 后按用量计费"@,
                "无限制编辑预测"@,
            ],
    {
        let r = vec![
            "VibeDev Agent 中价值 $5 的 Token",
            "超过 $5 后按用量计费",
            "无限制编辑预测",
        ];
        assert(points(r@) =~= seq![
            "VibeDev Agent 中价值 $5 的 Token"@,
            "超过 $5 后按用量计费"@,
            "无限制编辑预测"@,
        ]);
        r
    }

    pub fn business_plan(&self) -> (r: Vec<&'static str>)
        ensures
            points(r@) == seq!["无限制编辑预测"@, "基于用量的计费"@],
    {
        let r = vec!["无限制编辑预测", "基于用量的计费"];
        assert(points(r@) =~= seq!["无限制编辑预测"@, "基于用量的计费"@]);
        r
    }

    pub fn student_plan(&self) -> (r: Vec<&'static str>)
        ensures
            points(r@) == seq![
                "无限制编辑预测"@,
                "VibeDev Agent 中价值 $10 的 Token"@,
                "可选额度包用于额外使用"@,
            ],
    {
        let r = vec![
            "无限制编辑预测",
            "VibeDev Agent 中价值 $10 的 Token",
            "可选额度包用于额外使用",
        ];
        assert(points(r@) =~= seq![
            "无限制编辑预测"@,
            "VibeDev Agent 中价值 $10 的 Token"@,
            "可选额度包用于额外使用"@,
        ]);
        r
    }
}

/// A provider of the user's own that somebody is signed in to counts as set up; the cloud
/// alone does not, nor does a provider that nobody is signed in to.
pub proof fn law_own_providers_count_as_set_up(providers: Seq<VisibleProvider>, i: int)
    ensures
        0 <= i < providers.len() && providers[i].authenticated && providers[i].id@ != "zed.dev"@
            ==> any_configured(providers),
        (forall|j: int|
            0 <= j < providers.len() ==> !(#[trigger] providers[j]).authenticated
                || providers[j].id@ == "zed.dev"@) ==> !any_configured(providers),
{
    if 0 <= i < providers.len() && providers[i].authenticated && providers[i].id@ != "zed.dev"@ {
        assert(is_configured(providers[i]));
    }
}

} // verus!
