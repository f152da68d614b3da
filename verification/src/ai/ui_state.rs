//! Chat panel state: message roles, token tiers and agent roles.

use vstd::prelude::*;

verus! {

/// Who wrote a chat message.
#[derive(Debug, Clone, Copy, PartialEq, Eq, Structural)]
pub enum AiChatRole {
    User,
    Assistant,
}

/// One message of the chat panel.
#[derive(Debug, Clone, PartialEq, Eq)]
pub struct AiChatMessage {
    pub role: AiChatRole,
    pub text: String,
}

/// The answer length tier of a session (not saved; `Auto` after a restart).
#[derive(Debug, Clone, Copy, PartialEq, Eq, Structural)]
pub enum AiMaxTokenTier {
    Auto,
    Low,
    High,
}

impl Default for AiMaxTokenTier {
    /// `Auto`.
    fn default() -> (r: Self)
        ensures
            r == AiMaxTokenTier::Auto,
    {
        AiMaxTokenTier::Auto
    }
}

impl AiMaxTokenTier {
    pub open spec fn spec_label(self) -> &'static str {
        match self {
            AiMaxTokenTier::Auto => "自动",
            AiMaxTokenTier::Low => "低",
            AiMaxTokenTier::High => "高",
        }
    }

    /// The display name of the tier.
    pub fn label(self) -> (r: &'static str)
        ensures
            r == self.spec_label(),
    {
        match self {
            AiMaxTokenTier::Auto => "自动",
            AiMaxTokenTier::Low => "低",
            AiMaxTokenTier::High => "高",
        }
    }

    /// Every tier, in display order.
    pub fn all() -> (r: [AiMaxTokenTier; 3])
        ensures
            r@ == seq![AiMaxTokenTier::Auto, AiMaxTokenTier::Low, AiMaxTokenTier::High],
    {
        [AiMaxTokenTier::Auto, AiMaxTokenTier::Low, AiMaxTokenTier::High]
    }
}

/// The agent role of a session (not saved; `Default` after a restart).
#[derive(Debug, Clone, Copy, PartialEq, Eq, Structural)]
pub enum AiAgentKind {
    Default,
    Writer,
    Reviewer,
    Director,
}

impl Default for AiAgentKind {
    /// `Default`.
    fn default() -> (r: Self)
        ensures
            r == AiAgentKind::Default,
    {
        AiAgentKind::Default
    }
}

impl AiAgentKind {
    pub open spec fn spec_label(self) -> &'static str {
        match self {
            AiAgentKind::Default => "默认",
            AiAgentKind::Writer => "写手",
            AiAgentKind::Reviewer => "审查",
            AiAgentKind::Director => "导演",
        }
    }

    /// The display name of the role.
    pub fn label(self) -> (r: &'static str)
        ensures
            r == self.spec_label(),
    {
        match self {
            AiAgentKind::Default => "默认",
            AiAgentKind::Writer => "写手",
            AiAgentKind::Reviewer => "审查",
            AiAgentKind::Director => "导演",
        }
    }

    /// Every role, in display order.
    pub fn all() -> (r: [AiAgentKind; 4])
        ensures
            r@ == seq![AiAgentKind::Default, AiAgentKind::Writer, AiAgentKind::Reviewer, AiAgentKind::Director],
    {
        [AiAgentKind::Default, AiAgentKind::Writer, AiAgentKind::Reviewer, AiAgentKind::Director]
    }
}

} // verus!
