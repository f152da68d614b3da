//! Short hints added to the user's message for the structured actions.

use vstd::prelude::*;

use crate::ai::provider::AiAction;

verus! {

/// The hint each action adds to the user's message.
pub open spec fn action_hint(action: AiAction) -> &'static str {
    match action {
        AiAction::Chat => "",
        AiAction::Continue => "请在当前焦点后续写下去。可用 create_block 等写工具。",
        AiAction::Expand => "请在当前焦点上扩写。可用 create_block 等写工具。",
        AiAction::GenerateDialogue => "请生成对话。可用 create_block（dialogue）等写工具。",
        AiAction::Rewrite => "请改写当前选区。优先使用 propose_replace_blocks，不要整章重写。",
        AiAction::Summarize => "请先用读工具了解内容再给出摘要。若需写入大纲，使用大纲写工具。",
    }
}

/// The hint an action adds to the user's message (empty for plain chat).
pub fn action_prompt(action: AiAction) -> (r: &'static str)
    ensures
        r == action_hint(action),
{
    match action {
        AiAction::Chat => "",
        AiAction::Continue => "请在当前焦点后续写下去。可用 create_block 等写工具。",
        AiAction::Expand => "请在当前焦点上扩写。可用 create_block 等写工具。",
        AiAction::GenerateDialogue => "请生成对话。可用 create_block（dialogue）等写工具。",
        AiAction::Rewrite => "请改写当前选区。优先使用 propose_replace_blocks，不要整章重写。",
        AiAction::Summarize => "请先用读工具了解内容再给出摘要。若需写入大纲，使用大纲写工具。",
    }
}

} // verus!
