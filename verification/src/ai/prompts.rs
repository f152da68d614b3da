//! System prompts of the agent roles.

use vstd::prelude::*;

use crate::ai::ui_state::AiAgentKind;
use crate::models::project::AiContext;
use crate::text::{chars_of, push_chars, push_str, string_of, trim, trimmed};

verus! {

/// The built-in prompt of the writer role.
pub const SYSTEM_WRITER_PROMPT: &'static str = "你是小说写手助手。根据用户意图起草、续写或改写正文与剧本内容。保持文风一致，优先给出可直接落盘的文本，并在需要时使用工具提案修改。";

/// The built-in prompt of the proofreading role.
pub const SYSTEM_REVIEWER_PROMPT: &'static str = "你是文稿审查助手。检查逻辑漏洞、文风不一、人物口吻与节奏问题。给出具体、可执行的修改建议；需要改稿时用工具提出明确提案。";

/// The built-in prompt of the director role.
pub const SYSTEM_DIRECTOR_PROMPT: &'static str = "你是叙事导演助手。关注结构、场景节奏、冲突升级与视角调度。帮助规划章节/剧本走向，必要时用工具调整大纲或结构相关内容。";

/// The built-in prompt of a role agent.
pub open spec fn role_prompt(kind: AiAgentKind) -> Seq<char> {
    match kind {
        AiAgentKind::Default => Seq::empty(),
        AiAgentKind::Writer => SYSTEM_WRITER_PROMPT@,
        AiAgentKind::Reviewer => SYSTEM_REVIEWER_PROMPT@,
        AiAgentKind::Director => SYSTEM_DIRECTOR_PROMPT@,
    }
}

/// The project's own prompt for a role agent.
pub open spec fn project_prompt(kind: AiAgentKind, p: AiContext) -> Seq<char> {
    match kind {
        AiAgentKind::Default => Seq::empty(),
        AiAgentKind::Writer => p.writer_prompt@,
        AiAgentKind::Reviewer => p.reviewer_prompt@,
        AiAgentKind::Director => p.director_prompt@,
    }
}

/// The system prompt of a session: the default agent keeps
/// `default_system`; a role agent uses its built-in prompt, followed by a
/// blank line and the project's prompt for that role when that prompt,
/// trimmed, is not empty.
pub open spec fn system_prompt_of(kind: AiAgentKind, project: Option<AiContext>, default_system: Seq<char>) -> Seq<char> {
    if kind == AiAgentKind::Default {
        default_system
    } else {
        match project {
            Some(p) if trimmed(project_prompt(kind, p)).len() > 0 => role_prompt(kind) + "\n\n"@ + trimmed(
                project_prompt(kind, p),
            ),
            _ => role_prompt(kind),
        }
    }
}

/// Builds the system prompt for an agent role.
pub fn compose_system_prompt(kind: AiAgentKind, project: Option<&AiContext>, default_system: &str) -> (r: String)
    ensures
        r@ == system_prompt_of(
            kind,
            match project {
                Some(p) => Some(*p),
                None => None,
            },
            default_system@,
        ),
{
    let (role, extra): (&str, Option<&String>) = match kind {
        AiAgentKind::Default => return String::from_str(default_system),
        AiAgentKind::Writer => (SYSTEM_WRITER_PROMPT, match project {
            Some(p) => Some(&p.writer_prompt),
            None => None,
        }),
        AiAgentKind::Reviewer => (SYSTEM_REVIEWER_PROMPT, match project {
            Some(p) => Some(&p.reviewer_prompt),
            None => None,
        }),
        AiAgentKind::Director => (SYSTEM_DIRECTOR_PROMPT, match project {
            Some(p) => Some(&p.director_prompt),
            None => None,
        }),
    };
    match extra {
        Some(e) => {
            let t = chars_of(&trim(e));
            if t.len() > 0 {
                let mut v = chars_of(role);
                push_str(&mut v, "\n\n");
                push_chars(&mut v, &t);
                return string_of(v.as_slice());
            }
        },
        None => {},
    }
    String::from_str(role)
}

} // verus!
