//! Selection and editing state machine for screenplay blocks.

use vstd::prelude::*;

use super::block_focus::{moved_index, move_fits};

verus! {

/// Screenplay block focus: idle, selected or editing.
#[derive(Debug, Clone, PartialEq, Eq, Structural)]
pub enum ScriptFocus {
    Idle,
    Selected { index: usize },
    Editing { index: usize },
}

impl Default for ScriptFocus {
    fn default() -> (r: Self)
        ensures
            r == ScriptFocus::Idle,
    {
        ScriptFocus::Idle
    }
}

impl ScriptFocus {
    pub open spec fn spec_selected_index(self) -> Option<usize> {
        match self {
            ScriptFocus::Idle => None,
            ScriptFocus::Selected { index } => Some(index),
            ScriptFocus::Editing { index } => Some(index),
        }
    }

    /// The selected or edited block index, if any.
    pub fn selected_index(&self) -> (r: Option<usize>)
        ensures
            r == self.spec_selected_index(),
    {
        match self {
            ScriptFocus::Idle => None,
            ScriptFocus::Selected { index } => Some(*index),
            ScriptFocus::Editing { index } => Some(*index),
        }
    }

    pub fn is_editing(&self) -> (r: bool)
        ensures
            r == (*self is Editing),
    {
        match self {
            ScriptFocus::Editing { .. } => true,
            _ => false,
        }
    }

    pub open spec fn spec_is_editing_index(self, index: usize) -> bool {
        self matches ScriptFocus::Editing { index: i } && i == index
    }

    /// Whether block `index` is the one being edited.
    pub fn is_editing_index(&self, index: usize) -> (r: bool)
        ensures
            r == self.spec_is_editing_index(index),
    {
        match self {
            ScriptFocus::Editing { index: i } => *i == index,
            _ => false,
        }
    }

    /// A press on a block rebuilds its editor unless that block is already
    /// being edited.
    pub fn should_rebuild_editor_on_press(&self, index: usize) -> (r: bool)
        ensures
            r == !self.spec_is_editing_index(index),
    {
        !self.is_editing_index(index)
    }

    /// A click on a block enters editing directly.
    pub fn click_block(self, index: usize) -> (r: Self)
        ensures
            r == (ScriptFocus::Editing { index }),
    {
        ScriptFocus::Editing { index }
    }

    /// A click outside the blocks returns to idle.
    pub fn click_outside(self) -> (r: Self)
        ensures
            r == ScriptFocus::Idle,
    {
        ScriptFocus::Idle
    }

    pub open spec fn spec_escape(self) -> ScriptFocus {
        match self {
            ScriptFocus::Editing { index } => ScriptFocus::Selected { index },
            _ => ScriptFocus::Idle,
        }
    }

    /// Escape leaves editing for selection, and selection for idle.
    pub fn escape(self) -> (r: Self)
        ensures
            r == self.spec_escape(),
    {
        match self {
            ScriptFocus::Editing { index } => ScriptFocus::Selected { index },
            _ => ScriptFocus::Idle,
        }
    }

    pub open spec fn spec_move_selection(self, delta: isize, block_count: usize) -> ScriptFocus {
        if block_count == 0 {
            ScriptFocus::Idle
        } else {
            ScriptFocus::Selected {
                index: moved_index(self.spec_selected_index(), delta, block_count),
            }
        }
    }

    /// Moves the selection by `delta` blocks, clamped to the existing blocks.
    pub fn move_selection(self, delta: isize, block_count: usize) -> (r: Self)
        requires
            move_fits(self.spec_selected_index(), delta, block_count),
        ensures
            r == self.spec_move_selection(delta, block_count),
    {
        if block_count == 0 {
            return ScriptFocus::Idle;
        }
        match self.selected_index() {
            None => {
                let index = if delta < 0 { block_count - 1 } else { 0 };
                ScriptFocus::Selected { index }
            },
            Some(current) => {
                let hi: isize = block_count as isize - 1;
                let moved: isize = current as isize + delta;
                let next: isize = if moved < 0 {
                    0
                } else if moved > hi {
                    hi
                } else {
                    moved
                };
                ScriptFocus::Selected { index: next as usize }
            },
        }
    }

    pub open spec fn spec_clamp_to_len(self, len: usize) -> ScriptFocus {
        if len == 0 {
            ScriptFocus::Idle
        } else {
            match self {
                ScriptFocus::Idle => ScriptFocus::Idle,
                ScriptFocus::Selected { index } => ScriptFocus::Selected {
                    index: if index < len { index } else { (len - 1) as usize },
                },
                ScriptFocus::Editing { index } => ScriptFocus::Editing {
                    index: if index < len { index } else { (len - 1) as usize },
                },
            }
        }
    }

    /// Corrects the index after the number of blocks changed.
    pub fn clamp_to_len(self, len: usize) -> (r: Self)
        ensures
            r == self.spec_clamp_to_len(len),
    {
        if len == 0 {
            return ScriptFocus::Idle;
        }
        match self {
            ScriptFocus::Idle => ScriptFocus::Idle,
            ScriptFocus::Selected { index } => ScriptFocus::Selected {
                index: if index < len { index } else { len - 1 },
            },
            ScriptFocus::Editing { index } => ScriptFocus::Editing {
                index: if index < len { index } else { len - 1 },
            },
        }
    }
}

/// An inclusive range of adjacent selected screenplay blocks.
#[derive(Debug, Clone, PartialEq, Eq, Structural)]
pub struct ScriptMultiSelect {
    pub start: usize,
    pub end: usize,
}

impl Default for ScriptMultiSelect {
    fn default() -> (r: Self)
        ensures
            r.start == 0 && r.end == 0,
    {
        ScriptMultiSelect { start: 0, end: 0 }
    }
}

impl ScriptMultiSelect {
    /// The range between `a` and `b`, in either order.
    pub fn new(a: usize, b: usize) -> (r: Self)
        ensures
            r.start == if a <= b { a } else { b },
            r.end == if a <= b { b } else { a },
    {
        if a <= b {
            ScriptMultiSelect { start: a, end: b }
        } else {
            ScriptMultiSelect { start: b, end: a }
        }
    }

    /// Number of blocks in the range.
    pub fn count(&self) -> (r: usize)
        requires
            self.start <= self.end,
            self.end - self.start + 1 <= usize::MAX,
        ensures
            r == self.end - self.start + 1,
    {
        self.end - self.start + 1
    }

    /// Whether `index` lies in the range.
    pub fn contains(&self, index: usize) -> (r: bool)
        ensures
            r == (self.start <= index <= self.end),
    {
        index >= self.start && index <= self.end
    }
}

} // verus!
