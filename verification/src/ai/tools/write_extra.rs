//! The write tools that change or remove what exists: project header,
//! blocks, the chapter and screenplay trees, outline entries.

use vstd::prelude::*;

use crate::ai::intent::AiIntent;
use crate::ai::tools::write::{refused, ToolRefusal};
use crate::models::block::BlockType;
use crate::text::{is_blank, is_blank_str};

verus! {

/// The arguments of a changing or removing write tool. A sibling move's
/// direction is -1 for up and 1 for down.
#[derive(Debug, Clone, PartialEq, Eq)]
pub enum ExtraToolCall {
    UpdateProjectMeta { title: Option<String>, style_guide: Option<String>, synopsis: Option<String> },
    UpdateBlock {
        chapter_id: u128,
        block_id: u128,
        content: Option<String>,
        block_type: Option<BlockType>,
        speaker: Option<String>,
    },
    DeleteBlock { chapter_id: u128, block_id: u128 },
    MoveBlock { chapter_id: u128, block_id: u128, to_index: usize },
    RenameChapterNode { rel_path: String, new_name: String },
    DeleteChapterNode { rel_path: String },
    MoveChapterNode { rel_path: String, dest_parent_rel: String },
    MoveChapterSibling { rel_path: String, direction: i8 },
    CopyChapter { src_rel: String, dest_parent_rel: String, new_name: String },
    UpdateChapterTitle { chapter_id: u128, title: String },
    CreateScriptDirectory { parent_rel: String, name: String },
    RenameScriptNode { rel_path: String, new_name: String },
    DeleteScriptNode { rel_path: String },
    MoveScriptNode { rel_path: String, dest_parent_rel: String },
    MoveScriptSibling { rel_path: String, direction: i8 },
    CopyScript { src_rel: String, dest_parent_rel: String, new_name: String },
    UpdateScriptTitle { script_id: u128, title: String },
    DeleteScriptBlock { script_id: u128, block_id: u128 },
    MoveScriptBlock { script_id: u128, block_id: u128, to_index: usize },
    DeleteOutlineEntry { id: u128 },
}

/// `r` is exactly `Ok(intent)`.
pub open spec fn asks(r: Result<AiIntent, ToolRefusal>, intent: AiIntent) -> bool {
    r == Ok::<AiIntent, ToolRefusal>(intent)
}

/// What a changing or removing tool decides: the intent it asks for, with
/// id `intent_id` (and `new_id` for a copy), or why it refuses.
pub open spec fn extra_plan(call: ExtraToolCall, intent_id: u128, new_id: u128, r: Result<AiIntent, ToolRefusal>) -> bool {
    match call {
        ExtraToolCall::UpdateProjectMeta { title, style_guide, synopsis } => if title is None && style_guide is None
            && synopsis is None {
            refused(r, "更新项目元信息", "至少提供一个待更新字段"@)
        } else {
            asks(r, AiIntent::UpdateProjectMeta { intent_id, title, style_guide, synopsis })
        },
        ExtraToolCall::UpdateBlock { chapter_id, block_id, content, block_type, speaker } => if content is None
            && block_type is None && speaker is None {
            refused(r, "更新块", "至少提供一个待更新字段"@)
        } else {
            asks(r, AiIntent::UpdateBlock { intent_id, chapter_id, block_id, content, block_type, speaker })
        },
        ExtraToolCall::DeleteBlock { chapter_id, block_id } => asks(
            r,
            AiIntent::DeleteBlock { intent_id, chapter_id, block_id },
        ),
        ExtraToolCall::MoveBlock { chapter_id, block_id, to_index } => asks(
            r,
            AiIntent::MoveBlock { intent_id, chapter_id, block_id, to_index },
        ),
        ExtraToolCall::RenameChapterNode { rel_path, new_name } => if is_blank(new_name@) {
            refused(r, "重命名章节节点", "new_name 不能为空"@)
        } else {
            asks(r, AiIntent::RenameChapterNode { intent_id, rel_path, new_name })
        },
        ExtraToolCall::DeleteChapterNode { rel_path } => asks(r, AiIntent::DeleteChapterNode { intent_id, rel_path }),
        ExtraToolCall::MoveChapterNode { rel_path, dest_parent_rel } => asks(
            r,
            AiIntent::MoveChapterNode { intent_id, rel_path, dest_parent_rel },
        ),
        ExtraToolCall::MoveChapterSibling { rel_path, direction } => if direction != -1 && direction != 1 {
            refused(r, "移动章节同级", "direction 须为 -1 或 1"@)
        } else {
            asks(r, AiIntent::MoveChapterSibling { intent_id, rel_path, direction })
        },
        ExtraToolCall::CopyChapter { src_rel, dest_parent_rel, new_name } => if is_blank(new_name@) {
            refused(r, "复制章节", "new_name 不能为空"@)
        } else {
            asks(
                r,
                AiIntent::CopyChapter { intent_id, src_rel, dest_parent_rel, new_name, new_chapter_id: new_id },
            )
        },
        ExtraToolCall::UpdateChapterTitle { chapter_id, title } => if is_blank(title@) {
            refused(r, "更新章节标题", "title 不能为空"@)
        } else {
            asks(r, AiIntent::UpdateChapterTitle { intent_id, chapter_id, title })
        },
        ExtraToolCall::CreateScriptDirectory { parent_rel, name } => if is_blank(name@) {
            refused(r, "创建剧本目录", "name 不能为空"@)
        } else {
            asks(r, AiIntent::CreateScriptDirectory { intent_id, parent_rel, name })
        },
        ExtraToolCall::RenameScriptNode { rel_path, new_name } => if is_blank(new_name@) {
            refused(r, "重命名剧本节点", "new_name 不能为空"@)
        } else {
            asks(r, AiIntent::RenameScriptNode { intent_id, rel_path, new_name })
        },
        ExtraToolCall::DeleteScriptNode { rel_path } => asks(r, AiIntent::DeleteScriptNode { intent_id, rel_path }),
        ExtraToolCall::MoveScriptNode { rel_path, dest_parent_rel } => asks(
            r,
            AiIntent::MoveScriptNode { intent_id, rel_path, dest_parent_rel },
        ),
        ExtraToolCall::MoveScriptSibling { rel_path, direction } => if direction != -1 && direction != 1 {
            refused(r, "移动剧本同级", "direction 须为 -1 或 1"@)
        } else {
            asks(r, AiIntent::MoveScriptSibling { intent_id, rel_path, direction })
        },
        ExtraToolCall::CopyScript { src_rel, dest_parent_rel, new_name } => if is_blank(new_name@) {
            refused(r, "复制剧本", "new_name 不能为空"@)
        } else {
            asks(
                r,
                AiIntent::CopyScript { intent_id, src_rel, dest_parent_rel, new_name, new_script_id: new_id },
            )
        },
        ExtraToolCall::UpdateScriptTitle { script_id, title } => if is_blank(title@) {
            refused(r, "更新剧本标题", "title 不能为空"@)
        } else {
            asks(r, AiIntent::UpdateScriptTitle { intent_id, script_id, title })
        },
        ExtraToolCall::DeleteScriptBlock { script_id, block_id } => asks(
            r,
            AiIntent::DeleteScriptBlock { intent_id, script_id, block_id },
        ),
        ExtraToolCall::MoveScriptBlock { script_id, block_id, to_index } => asks(
            r,
            AiIntent::MoveScriptBlock { intent_id, script_id, block_id, to_index },
        ),
        ExtraToolCall::DeleteOutlineEntry { id } => asks(r, AiIntent::DeleteOutlineEntry { intent_id, id }),
    }
}

fn refuse(summary: &'static str, error: &str) -> (r: Result<AiIntent, ToolRefusal>)
    ensures
        refused(r, summary, error@),
{
    Err(ToolRefusal { summary, error: String::from_str(error) })
}

/// Checks the arguments of a changing or removing tool and builds the
/// intent it asks for, with id `intent_id`; a copy gets the id `new_id`.
pub fn plan_extra_tool(call: ExtraToolCall, intent_id: u128, new_id: u128) -> (r: Result<AiIntent, ToolRefusal>)
    ensures
        extra_plan(call, intent_id, new_id, r),
{
    match call {
        ExtraToolCall::UpdateProjectMeta { title, style_guide, synopsis } => {
            if title.is_none() && style_guide.is_none() && synopsis.is_none() {
                return refuse("更新项目元信息", "至少提供一个待更新字段");
            }
            Ok(AiIntent::UpdateProjectMeta { intent_id, title, style_guide, synopsis })
        },
        ExtraToolCall::UpdateBlock { chapter_id, block_id, content, block_type, speaker } => {
            if content.is_none() && block_type.is_none() && speaker.is_none() {
                return refuse("更新块", "至少提供一个待更新字段");
            }
            Ok(AiIntent::UpdateBlock { intent_id, chapter_id, block_id, content, block_type, speaker })
        },
        ExtraToolCall::DeleteBlock { chapter_id, block_id } => Ok(
            AiIntent::DeleteBlock { intent_id, chapter_id, block_id },
        ),
        ExtraToolCall::MoveBlock { chapter_id, block_id, to_index } => Ok(
            AiIntent::MoveBlock { intent_id, chapter_id, block_id, to_index },
        ),
        ExtraToolCall::RenameChapterNode { rel_path, new_name } => {
            if is_blank_str(new_name.as_str()) {
                return refuse("重命名章节节点", "new_name 不能为空");
            }
            Ok(AiIntent::RenameChapterNode { intent_id, rel_path, new_name })
        },
        ExtraToolCall::DeleteChapterNode { rel_path } => Ok(AiIntent::DeleteChapterNode { intent_id, rel_path }),
        ExtraToolCall::MoveChapterNode { rel_path, dest_parent_rel } => Ok(
            AiIntent::MoveChapterNode { intent_id, rel_path, dest_parent_rel },
        ),
        ExtraToolCall::MoveChapterSibling { rel_path, direction } => {
            if direction != -1 && direction != 1 {
                return refuse("移动章节同级", "direction 须为 -1 或 1");
            }
            Ok(AiIntent::MoveChapterSibling { intent_id, rel_path, direction })
        },
        ExtraToolCall::CopyChapter { src_rel, dest_parent_rel, new_name } => {
            if is_blank_str(new_name.as_str()) {
                return refuse("复制章节", "new_name 不能为空");
            }
            Ok(AiIntent::CopyChapter { intent_id, src_rel, dest_parent_rel, new_name, new_chapter_id: new_id })
        },
        ExtraToolCall::UpdateChapterTitle { chapter_id, title } => {
            if is_blank_str(title.as_str()) {
                return refuse("更新章节标题", "title 不能为空");
            }
            Ok(AiIntent::UpdateChapterTitle { intent_id, chapter_id, title })
        },
        ExtraToolCall::CreateScriptDirectory { parent_rel, name } => {
            if is_blank_str(name.as_str()) {
                return refuse("创建剧本目录", "name 不能为空");
            }
            Ok(AiIntent::CreateScriptDirectory { intent_id, parent_rel, name })
        },
        ExtraToolCall::RenameScriptNode { rel_path, new_name } => {
            if is_blank_str(new_name.as_str()) {
                return refuse("重命名剧本节点", "new_name 不能为空");
            }
            Ok(AiIntent::RenameScriptNode { intent_id, rel_path, new_name })
        },
        ExtraToolCall::DeleteScriptNode { rel_path } => Ok(AiIntent::DeleteScriptNode { intent_id, rel_path }),
        ExtraToolCall::MoveScriptNode { rel_path, dest_parent_rel } => Ok(
            AiIntent::MoveScriptNode { intent_id, rel_path, dest_parent_rel },
        ),
        ExtraToolCall::MoveScriptSibling { rel_path, direction } => {
            if direction != -1 && direction != 1 {
                return refuse("移动剧本同级", "direction 须为 -1 或 1");
            }
            Ok(AiIntent::MoveScriptSibling { intent_id, rel_path, direction })
        },
        ExtraToolCall::CopyScript { src_rel, dest_parent_rel, new_name } => {
            if is_blank_str(new_name.as_str()) {
                return refuse("复制剧本", "new_name 不能为空");
            }
            Ok(AiIntent::CopyScript { intent_id, src_rel, dest_parent_rel, new_name, new_script_id: new_id })
        },
        ExtraToolCall::UpdateScriptTitle { script_id, title } => {
            if is_blank_str(title.as_str()) {
                return refuse("更新剧本标题", "title 不能为空");
            }
            Ok(AiIntent::UpdateScriptTitle { intent_id, script_id, title })
        },
        ExtraToolCall::DeleteScriptBlock { script_id, block_id } => Ok(
            AiIntent::DeleteScriptBlock { intent_id, script_id, block_id },
        ),
        ExtraToolCall::MoveScriptBlock { script_id, block_id, to_index } => Ok(
            AiIntent::MoveScriptBlock { intent_id, script_id, block_id, to_index },
        ),
        ExtraToolCall::DeleteOutlineEntry { id } => Ok(AiIntent::DeleteOutlineEntry { intent_id, id }),
    }
}

} // verus!
