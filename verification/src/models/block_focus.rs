//! Selection and editing state machine for chapter blocks.

use vstd::prelude::*;

verus! {

/// Block focus: idle, then selected, then editing.
#[derive(Debug, Clone, PartialEq, Eq, Structural)]
pub enum BlockFocus {
    Idle,
    Selected { index: usize },
    Editing { index: usize },
}

impl Default for BlockFocus {
    fn default() -> (r: Self)
        ensures
            r == BlockFocus::Idle,
    {
        BlockFocus::Idle
    }
}

/// `value` clamped to the closed range `[lo, hi]`.
pub open spec fn clamp_int(value: int, lo: int, hi: int) -> int {
    if value < lo {
        lo
    } else if value > hi {
        hi
    } else {
        value
    }
}

/// Index reached by moving from the current selection by `delta` among
/// `count` blocks; from no selection a negative step lands on the last block
/// and any other step on the first.
pub open spec fn moved_index(current: Option<usize>, delta: isize, count: usize) -> usize {
    match current {
        None => if delta < 0 { (count - 1) as usize } else { 0 },
        Some(c) => clamp_int(c as isize + delta, 0, count - 1) as usize,
    }
}

/// The machine limits under which a move computes without overflow.
pub open spec fn move_fits(current: Option<usize>, delta: isize, count: usize) -> bool {
    &&& count <= isize::MAX
    &&& current matches Some(c) ==> isize::MIN <= (c as isize) + delta <= isize::MAX
}

impl BlockFocus {
    pub open spec fn spec_selected_index(self) -> Option<usize> {
        match self {
            BlockFocus::Idle => None,
            BlockFocus::Selected { index } => Some(index),
            BlockFocus::Editing { index } => Some(index),
        }
    }

    /// The selected or edited block index, if any.
    pub fn selected_index(&self) -> (r: Option<usize>)
        ensures
            r == self.spec_selected_index(),
    {
        match self {
            BlockFocus::Idle => None,
            BlockFocus::Selected { index } => Some(*index),
            BlockFocus::Editing { index } => Some(*index),
        }
    }

    pub fn is_editing(&self) -> (r: bool)
        ensures
            r == (*self is Editing),
    {
        match self {
            BlockFocus::Editing { .. } => true,
            _ => false,
        }
    }

    pub open spec fn spec_click_block(self, index: usize) -> BlockFocus {
        match self {
            BlockFocus::Selected { index: i } if i == index => BlockFocus::Editing { index },
            BlockFocus::Editing { index: i } if i == index => BlockFocus::Editing { index },
            _ => BlockFocus::Selected { index },
        }
    }

    /// First click selects a block; a click on the block already selected or
    /// edited enters (or stays in) editing.
    pub fn click_block(self, index: usize) -> (r: Self)
        ensures
            r == self.spec_click_block(index),
    {
        match self {
            BlockFocus::Selected { index: i } if i == index => BlockFocus::Editing { index },
            BlockFocus::Editing { index: i } if i == index => BlockFocus::Editing { index },
            _ => BlockFocus::Selected { index },
        }
    }

    /// A click outside the blocks ends editing and selection.
    pub fn click_outside(self) -> (r: Self)
        ensures
            r == BlockFocus::Idle,
    {
        BlockFocus::Idle
    }

    pub open spec fn spec_escape(self) -> BlockFocus {
        match self {
            BlockFocus::Editing { index } => BlockFocus::Selected { index },
            _ => BlockFocus::Idle,
        }
    }

    /// Escape leaves editing for selection, and selection for idle.
    pub fn escape(self) -> (r: Self)
        ensures
            r == self.spec_escape(),
    {
        match self {
            BlockFocus::Editing { index } => BlockFocus::Selected { index },
            _ => BlockFocus::Idle,
        }
    }

    pub open spec fn spec_move_selection(self, delta: isize, block_count: usize) -> BlockFocus {
        if block_count == 0 {
            BlockFocus::Idle
        } else {
            BlockFocus::Selected {
                index: moved_index(self.spec_selected_index(), delta, block_count),
            }
        }
    }

    /// Moves the selection by `delta` blocks, clamped to the existing blocks;
    /// editing ends and the target is selected.
    pub fn move_selection(self, delta: isize, block_count: usize) -> (r: Self)
        requires
            move_fits(self.spec_selected_index(), delta, block_count),
        ensures
            r == self.spec_move_selection(delta, block_count),
    {
        if block_count == 0 {
            return BlockFocus::Idle;
        }
        match self.selected_index() {
            None => {
                let index = if delta < 0 { block_count - 1 } else { 0 };
                BlockFocus::Selected { index }
            },
            Some(current) => {
                let hi: isize = block_count as isize - 1;
                let moved: isize = current as isize + delta;
                let next: isize = if moved < 0 {
                    0
                } else if moved > hi {
                    hi
                } else {
                    moved
                };
                BlockFocus::Selected { index: next as usize }
            },
        }
    }

    pub open spec fn spec_clamp_to_len(self, len: usize) -> BlockFocus {
        if len == 0 {
            BlockFocus::Idle
        } else {
            match self {
                BlockFocus::Idle => BlockFocus::Idle,
                BlockFocus::Selected { index } => BlockFocus::Selected {
                    index: if index < len { index } else { (len - 1) as usize },
                },
                BlockFocus::Editing { index } => BlockFocus::Editing {
                    index: if index < len { index } else { (len - 1) as usize },
                },
            }
        }
    }

    /// Corrects the index after the number of blocks changed.
    pub fn clamp_to_len(self, len: usize) -> (r: Self)
        ensures
            r == self.spec_clamp_to_len(len),
    {
        if len == 0 {
            return BlockFocus::Idle;
        }
        match self {
            BlockFocus::Idle => BlockFocus::Idle,
            BlockFocus::Selected { index } => BlockFocus::Selected {
                index: if index < len { index } else { len - 1 },
            },
            BlockFocus::Editing { index } => BlockFocus::Editing {
                index: if index < len { index } else { len - 1 },
            },
        }
    }
}

/// An inclusive range of adjacent selected blocks.
#[derive(Debug, Clone, PartialEq, Eq, Structural)]
pub struct BlockMultiSelect {
    pub start: usize,
    pub end: usize,
}

impl Default for BlockMultiSelect {
    fn default() -> (r: Self)
        ensures
            r.start == 0 && r.end == 0,
    {
        BlockMultiSelect { start: 0, end: 0 }
    }
}

impl BlockMultiSelect {
    /// The range between `a` and `b`, in either order.
    pub fn new(a: usize, b: usize) -> (r: Self)
        ensures
            r.start == if a <= b { a } else { b },
            r.end == if a <= b { b } else { a },
    {
        if a <= b {
            BlockMultiSelect { start: a, end: b }
        } else {
            BlockMultiSelect { start: b, end: a }
        }
    }

    /// Number of blocks in the range.
    pub fn count(&self) -> (r: usize)
        requires
            self.start <= self.end,
            self.end - self.start + 1 <= usize::MAX,
        ensures
            r == self.end - self.start + 1,
    {
        self.end - self.start + 1
    }

    /// Whether `index` lies in the range.
    pub fn contains(&self, index: usize) -> (r: bool)
        ensures
            r == (self.start <= index <= self.end),
    {
        index >= self.start && index <= self.end
    }
}

} // verus!
