//! The write tools that create content: the checks on their arguments and
//! the intents they ask for.

use std::collections::BTreeMap;

use vstd::prelude::*;

use crate::ai::intent::{AiIntent, ScriptBlockUpdateFields};
use crate::models::block::{Block, BlockType};
use crate::models::outline::OutlineCategory;
use crate::models::script::{ScriptBlock, ScriptBlockType};
use crate::text::{is_blank, is_blank_str, push_str, string_of};

verus! {

/// One block of a replacement, as the model sends it.
#[derive(Debug, Clone, PartialEq, Eq)]
pub struct BlockInput {
    pub block_type: BlockType,
    pub content: String,
    pub speaker: Option<String>,
}

/// One screenplay block to append, as the model sends it.
#[derive(Debug, Clone, PartialEq, Eq)]
pub struct ScriptBlockInput {
    pub block_type: ScriptBlockType,
    pub content: String,
    pub character: Option<String>,
}

/// Why a tool refused its arguments: the action's summary and the reason.
#[derive(Debug, Clone, PartialEq, Eq)]
pub struct ToolRefusal {
    pub summary: &'static str,
    pub error: String,
}

/// `label` followed by " 块必须指定 " and the missing field.
pub open spec fn missing_field_text(label: Seq<char>, field: Seq<char>) -> Seq<char> {
    label + " 块必须指定 "@ + field
}

/// A dialogue or thought block needs a non-blank speaker.
pub open spec fn speaker_check(block_type: BlockType, speaker: Option<String>) -> Option<Seq<char>> {
    if !block_type.spec_allows_speaker() {
        None
    } else if speaker matches Some(s) && !is_blank(s@) {
        None
    } else {
        Some(missing_field_text(block_type.spec_label()@, "speaker"@))
    }
}

/// A character cue or dialogue line needs a non-blank character.
pub open spec fn character_check(block_type: ScriptBlockType, character: Option<String>) -> Option<Seq<char>> {
    if !block_type.spec_allows_character() {
        None
    } else if character matches Some(s) && !is_blank(s@) {
        None
    } else {
        Some(missing_field_text(block_type.spec_label()@, "character"@))
    }
}

fn missing_field_message(label: &str, field: &str) -> (r: String)
    ensures
        r@ == missing_field_text(label@, field@),
{
    let mut v: Vec<char> = Vec::new();
    push_str(&mut v, label);
    proof { reveal_strlit(" 块必须指定 "); }
    push_str(&mut v, " 块必须指定 ");
    push_str(&mut v, field);
    string_of(v.as_slice())
}

/// The refusal text when a dialogue or thought block lacks a speaker.
pub fn validate_chapter_speaker(block_type: BlockType, speaker: &Option<String>) -> (r: Option<String>)
    ensures
        match speaker_check(block_type, *speaker) {
            None => r is None,
            Some(m) => r matches Some(e) && e@ == m,
        },
{
    if !block_type.allows_speaker() {
        return None;
    }
    match speaker {
        Some(s) => {
            if !is_blank_str(s.as_str()) {
                return None;
            }
        },
        None => {},
    }
    proof { reveal_strlit("speaker"); }
    Some(missing_field_message(block_type.label(), "speaker"))
}

/// The refusal text when a character cue or dialogue line lacks a
/// character.
pub fn validate_script_character(block_type: ScriptBlockType, character: &Option<String>) -> (r: Option<String>)
    ensures
        match character_check(block_type, *character) {
            None => r is None,
            Some(m) => r matches Some(e) && e@ == m,
        },
{
    if !block_type.allows_character() {
        return None;
    }
    match character {
        Some(s) => {
            if !is_blank_str(s.as_str()) {
                return None;
            }
        },
        None => {},
    }
    proof { reveal_strlit("character"); }
    Some(missing_field_message(block_type.label(), "character"))
}

/// `b` is the block made from `input` at time `now`.
pub open spec fn block_from_input(b: Block, input: BlockInput, now: i64) -> bool {
    &&& b.block_type == input.block_type
    &&& b.content@ == input.content@
    &&& b.speaker == (if input.block_type.spec_allows_speaker() { input.speaker } else { None })
    &&& b.meta.created_at == now
    &&& b.meta.updated_at == now
    &&& b.meta.note@.len() == 0
}

/// `b` is the screenplay block made from `input` at time `now`.
pub open spec fn script_block_from_input(b: ScriptBlock, input: ScriptBlockInput, now: i64) -> bool {
    &&& b.block_type == input.block_type
    &&& b.content@ == input.content@
    &&& b.character == (if input.block_type.spec_allows_character() { input.character } else { None })
    &&& b.ends_at is None
    &&& b.meta.created_at == now
    &&& b.meta.updated_at == now
    &&& b.meta.note@.len() == 0
}

/// A new block with a fresh id from a replacement input; a dialogue or
/// thought block without speaker is refused.
pub fn block_input_to_block(input: BlockInput, now: i64) -> (r: Result<Block, String>)
    ensures
        match speaker_check(input.block_type, input.speaker) {
            Some(m) => r matches Err(e) && e@ == m,
            None => r matches Ok(b) && block_from_input(b, input, now),
        },
{
    if let Some(err) = validate_chapter_speaker(input.block_type, &input.speaker) {
        return Err(err);
    }
    let mut block = Block::new(input.block_type, input.content, now);
    if input.block_type.allows_speaker() {
        block.speaker = input.speaker;
    }
    Ok(block)
}

/// A new screenplay block with a fresh id from an input; a character cue
/// or dialogue line without character is refused.
pub fn script_block_input_to_block(input: ScriptBlockInput, now: i64) -> (r: Result<ScriptBlock, String>)
    ensures
        match character_check(input.block_type, input.character) {
            Some(m) => r matches Err(e) && e@ == m,
            None => r matches Ok(b) && script_block_from_input(b, input, now),
        },
{
    if let Some(err) = validate_script_character(input.block_type, &input.character) {
        return Err(err);
    }
    let mut block = ScriptBlock::new(input.block_type, input.content, now);
    if input.block_type.allows_character() {
        block.character = input.character;
    }
    Ok(block)
}

/// The arguments of a content-creating write tool.
#[derive(Debug, Clone, PartialEq, Eq)]
pub enum WriteToolCall {
    CreateBlock {
        chapter_id: u128,
        block_type: BlockType,
        content: String,
        speaker: Option<String>,
        after_block_id: Option<u128>,
    },
    ProposeReplaceBlocks { chapter_id: u128, target_ids: Vec<u128>, blocks: Vec<BlockInput> },
    CreateChapterDirectory { parent_rel: String, name: String },
    CreateChapterFile { parent_rel: String, name: String, title: String },
    CreateOutlineEntry { category: OutlineCategory, key: String, fields: Option<BTreeMap<String, String>> },
    UpdateOutlineEntry {
        id: u128,
        key: Option<String>,
        category: Option<OutlineCategory>,
        fields: Option<BTreeMap<String, String>>,
    },
    CreateScript { title: String, parent_rel: String, name: Option<String> },
    AppendScriptBlocks { script_id: u128, blocks: Vec<ScriptBlockInput> },
    UpdateScriptBlock {
        script_id: u128,
        block_id: u128,
        content: Option<String>,
        character: Option<String>,
        block_type: Option<ScriptBlockType>,
    },
}

/// `r` is a refusal with this summary and reason.
pub open spec fn refused(r: Result<AiIntent, ToolRefusal>, summary: &'static str, error: Seq<char>) -> bool {
    r matches Err(f) && f.summary@ == summary@ && f.error@ == error
}

/// The reason given for the first replacement input, from `j` on, that
/// lacks a speaker.
pub open spec fn first_bad_block(inputs: Seq<BlockInput>, j: int) -> Option<Seq<char>>
    decreases inputs.len() - j,
{
    if j < 0 || j >= inputs.len() {
        None
    } else if speaker_check(inputs[j].block_type, inputs[j].speaker) is Some {
        speaker_check(inputs[j].block_type, inputs[j].speaker)
    } else {
        first_bad_block(inputs, j + 1)
    }
}

/// The reason given for the first screenplay input, from `j` on, that lacks
/// a character.
pub open spec fn first_bad_script_block(inputs: Seq<ScriptBlockInput>, j: int) -> Option<Seq<char>>
    decreases inputs.len() - j,
{
    if j < 0 || j >= inputs.len() {
        None
    } else if character_check(inputs[j].block_type, inputs[j].character) is Some {
        character_check(inputs[j].block_type, inputs[j].character)
    } else {
        first_bad_script_block(inputs, j + 1)
    }
}

/// Each block is made from the input at the same position.
pub open spec fn blocks_from_inputs(bs: Seq<Block>, inputs: Seq<BlockInput>, now: i64) -> bool {
    &&& bs.len() == inputs.len()
    &&& forall|j: int| 0 <= j < bs.len() ==> block_from_input(#[trigger] bs[j], inputs[j], now)
}

/// Each screenplay block is made from the input at the same position.
pub open spec fn script_blocks_from_inputs(bs: Seq<ScriptBlock>, inputs: Seq<ScriptBlockInput>, now: i64) -> bool {
    &&& bs.len() == inputs.len()
    &&& forall|j: int| 0 <= j < bs.len() ==> script_block_from_input(#[trigger] bs[j], inputs[j], now)
}

/// What a content-creating tool decides: the intent it asks for, with id
/// `intent_id` (and `new_id` for a new chapter), or why it refuses.
pub open spec fn write_plan(
    call: WriteToolCall,
    intent_id: u128,
    new_id: u128,
    now: i64,
    r: Result<AiIntent, ToolRefusal>,
) -> bool {
    match call {
        WriteToolCall::CreateBlock { chapter_id, block_type, content, speaker, after_block_id } => match speaker_check(
            block_type,
            speaker,
        ) {
            Some(m) => refused(r, "创建块", m),
            None => r == Ok::<AiIntent, ToolRefusal>(
                AiIntent::CreateBlock { intent_id, chapter_id, block_type, content, speaker, after_block_id },
            ),
        },
        WriteToolCall::ProposeReplaceBlocks { chapter_id, target_ids, blocks } => if target_ids@.len() == 0 {
            refused(r, "替换块", "target_ids 不能为空"@)
        } else if blocks@.len() == 0 {
            refused(r, "替换块", "blocks 不能为空"@)
        } else if first_bad_block(blocks@, 0) is Some {
            refused(r, "替换块", first_bad_block(blocks@, 0)->0)
        } else {
            r matches Ok(AiIntent::ReplaceBlocks { intent_id: i, chapter_id: c, target_ids: t, blocks: bs }) && i
                == intent_id && c == chapter_id && t == target_ids && blocks_from_inputs(bs@, blocks@, now)
        },
        WriteToolCall::CreateChapterDirectory { parent_rel, name } => if is_blank(name@) {
            refused(r, "创建章节目录", "name 不能为空"@)
        } else {
            r == Ok::<AiIntent, ToolRefusal>(AiIntent::CreateChapterDirectory { intent_id, parent_rel, name })
        },
        WriteToolCall::CreateChapterFile { parent_rel, name, title } => if is_blank(name@) {
            refused(r, "创建章节文件", "name 不能为空"@)
        } else if is_blank(title@) {
            refused(r, "创建章节文件", "title 不能为空"@)
        } else {
            r == Ok::<AiIntent, ToolRefusal>(
                AiIntent::CreateChapterFile { intent_id, chapter_id: new_id, parent_rel, name, title },
            )
        },
        WriteToolCall::CreateOutlineEntry { category, key, fields } => if is_blank(key@) {
            refused(r, "创建大纲条目", "key 不能为空"@)
        } else {
            r == Ok::<AiIntent, ToolRefusal>(AiIntent::CreateOutlineEntry { intent_id, category, key, fields })
        },
        WriteToolCall::UpdateOutlineEntry { id, key, category, fields } => r == Ok::<AiIntent, ToolRefusal>(
            AiIntent::UpdateOutlineEntry { intent_id, id, key, category, fields },
        ),
        WriteToolCall::CreateScript { title, parent_rel, name } => if is_blank(title@) {
            refused(r, "创建剧本", "title 不能为空"@)
        } else if name matches Some(n) && is_blank(n@) {
            refused(r, "创建剧本", "name 不能为空"@)
        } else {
            r == Ok::<AiIntent, ToolRefusal>(
                AiIntent::CreateScript { intent_id, title, parent_rel, script_id: None, name },
            )
        },
        WriteToolCall::AppendScriptBlocks { script_id, blocks } => if blocks@.len() == 0 {
            refused(r, "追加剧本块", "blocks 不能为空"@)
        } else if first_bad_script_block(blocks@, 0) is Some {
            refused(r, "追加剧本块", first_bad_script_block(blocks@, 0)->0)
        } else {
            r matches Ok(AiIntent::AppendScriptBlocks { intent_id: i, script_id: s, blocks: bs }) && i == intent_id
                && s == script_id && script_blocks_from_inputs(bs@, blocks@, now)
        },
        WriteToolCall::UpdateScriptBlock { script_id, block_id, content, character, block_type } => if content is None
            && character is None && block_type is None {
            refused(r, "更新剧本块", "至少提供一个待更新字段"@)
        } else if block_type matches Some(t) && character_check(t, character) is Some {
            refused(r, "更新剧本块", character_check(block_type->0, character)->0)
        } else {
            r == Ok::<AiIntent, ToolRefusal>(
                AiIntent::UpdateScriptBlock {
                    intent_id,
                    script_id,
                    block_id,
                    fields: ScriptBlockUpdateFields { content, character, block_type },
                },
            )
        },
    }
}

fn refusal(summary: &'static str, error: &str) -> (r: Result<AiIntent, ToolRefusal>)
    ensures
        refused(r, summary, error@),
{
    Err(ToolRefusal { summary, error: String::from_str(error) })
}

fn clone_opt(o: &Option<String>) -> (r: Option<String>)
    ensures
        r == *o,
{
    match o {
        Some(s) => Some(s.clone()),
        None => None,
    }
}

/// Turns replacement inputs into new blocks; the first input without a
/// required speaker refuses.
fn blocks_from(inputs: &Vec<BlockInput>, now: i64) -> (r: Result<Vec<Block>, String>)
    ensures
        first_bad_block(inputs@, 0) matches Some(m) ==> r matches Err(e) && e@ == m,
        first_bad_block(inputs@, 0) is None ==> (r matches Ok(bs) && blocks_from_inputs(bs@, inputs@, now)),
{
    let mut out: Vec<Block> = Vec::new();
    let mut i: usize = 0;
    while i < inputs.len()
        invariant
            i <= inputs@.len(),
            first_bad_block(inputs@, 0) == first_bad_block(inputs@, i as int),
            out@.len() == i,
            forall|j: int| 0 <= j < i ==> block_from_input(#[trigger] out@[j], inputs@[j], now),
        decreases inputs.len() - i,
    {
        let input = BlockInput {
            block_type: inputs[i].block_type,
            content: inputs[i].content.clone(),
            speaker: clone_opt(&inputs[i].speaker),
        };
        assert(input == inputs@[i as int]);
        match block_input_to_block(input, now) {
            Ok(b) => out.push(b),
            Err(e) => {
                return Err(e);
            },
        }
        i = i + 1;
    }
    Ok(out)
}

/// Turns screenplay inputs into new blocks; the first input without a
/// required character refuses.
fn script_blocks_from(inputs: &Vec<ScriptBlockInput>, now: i64) -> (r: Result<Vec<ScriptBlock>, String>)
    ensures
        first_bad_script_block(inputs@, 0) matches Some(m) ==> r matches Err(e) && e@ == m,
        first_bad_script_block(inputs@, 0) is None ==> (r matches Ok(bs) && script_blocks_from_inputs(
            bs@,
            inputs@,
            now,
        )),
{
    let mut out: Vec<ScriptBlock> = Vec::new();
    let mut i: usize = 0;
    while i < inputs.len()
        invariant
            i <= inputs@.len(),
            first_bad_script_block(inputs@, 0) == first_bad_script_block(inputs@, i as int),
            out@.len() == i,
            forall|j: int| 0 <= j < i ==> script_block_from_input(#[trigger] out@[j], inputs@[j], now),
        decreases inputs.len() - i,
    {
        let input = ScriptBlockInput {
            block_type: inputs[i].block_type,
            content: inputs[i].content.clone(),
            character: clone_opt(&inputs[i].character),
        };
        assert(input == inputs@[i as int]);
        match script_block_input_to_block(input, now) {
            Ok(b) => out.push(b),
            Err(e) => {
                return Err(e);
            },
        }
        i = i + 1;
    }
    Ok(out)
}

/// Checks the arguments of a content-creating tool and builds the intent it
/// asks for, with id `intent_id`; a new chapter gets the id `new_id`, new
/// blocks are stamped `now`.
pub fn plan_write_tool(call: WriteToolCall, intent_id: u128, new_id: u128, now: i64) -> (r: Result<
    AiIntent,
    ToolRefusal,
>)
    ensures
        write_plan(call, intent_id, new_id, now, r),
{
    match call {
        WriteToolCall::CreateBlock { chapter_id, block_type, content, speaker, after_block_id } => {
            if let Some(err) = validate_chapter_speaker(block_type, &speaker) {
                return Err(ToolRefusal { summary: "创建块", error: err });
            }
            Ok(AiIntent::CreateBlock { intent_id, chapter_id, block_type, content, speaker, after_block_id })
        },
        WriteToolCall::ProposeReplaceBlocks { chapter_id, target_ids, blocks } => {
            if target_ids.len() == 0 {
                return refusal("替换块", "target_ids 不能为空");
            }
            if blocks.len() == 0 {
                return refusal("替换块", "blocks 不能为空");
            }
            match blocks_from(&blocks, now) {
                Ok(bs) => Ok(AiIntent::ReplaceBlocks { intent_id, chapter_id, target_ids, blocks: bs }),
                Err(e) => Err(ToolRefusal { summary: "替换块", error: e }),
            }
        },
        WriteToolCall::CreateChapterDirectory { parent_rel, name } => {
            if is_blank_str(name.as_str()) {
                return refusal("创建章节目录", "name 不能为空");
            }
            Ok(AiIntent::CreateChapterDirectory { intent_id, parent_rel, name })
        },
        WriteToolCall::CreateChapterFile { parent_rel, name, title } => {
            if is_blank_str(name.as_str()) {
                return refusal("创建章节文件", "name 不能为空");
            }
            if is_blank_str(title.as_str()) {
                return refusal("创建章节文件", "title 不能为空");
            }
            Ok(AiIntent::CreateChapterFile { intent_id, chapter_id: new_id, parent_rel, name, title })
        },
        WriteToolCall::CreateOutlineEntry { category, key, fields } => {
            if is_blank_str(key.as_str()) {
                return refusal("创建大纲条目", "key 不能为空");
            }
            Ok(AiIntent::CreateOutlineEntry { intent_id, category, key, fields })
        },
        WriteToolCall::UpdateOutlineEntry { id, key, category, fields } => {
            Ok(AiIntent::UpdateOutlineEntry { intent_id, id, key, category, fields })
        },
        WriteToolCall::CreateScript { title, parent_rel, name } => {
            if is_blank_str(title.as_str()) {
                return refusal("创建剧本", "title 不能为空");
            }
            if let Some(n) = &name {
                if is_blank_str(n.as_str()) {
                    return refusal("创建剧本", "name 不能为空");
                }
            }
            Ok(AiIntent::CreateScript { intent_id, title, parent_rel, script_id: None, name })
        },
        WriteToolCall::AppendScriptBlocks { script_id, blocks } => {
            if blocks.len() == 0 {
                return refusal("追加剧本块", "blocks 不能为空");
            }
            match script_blocks_from(&blocks, now) {
                Ok(bs) => Ok(AiIntent::AppendScriptBlocks { intent_id, script_id, blocks: bs }),
                Err(e) => Err(ToolRefusal { summary: "追加剧本块", error: e }),
            }
        },
        WriteToolCall::UpdateScriptBlock { script_id, block_id, content, character, block_type } => {
            if content.is_none() && character.is_none() && block_type.is_none() {
                return refusal("更新剧本块", "至少提供一个待更新字段");
            }
            if let Some(t) = block_type {
                if let Some(err) = validate_script_character(t, &character) {
                    return Err(ToolRefusal { summary: "更新剧本块", error: err });
                }
            }
            Ok(
                AiIntent::UpdateScriptBlock {
                    intent_id,
                    script_id,
                    block_id,
                    fields: ScriptBlockUpdateFields { content, character, block_type },
                },
            )
        },
    }
}

} // verus!
