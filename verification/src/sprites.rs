//! The cat sprite sheet: which row holds which animation, and how many frames.
use vstd::prelude::*;

verus! {

/// The RGB565 value that marks a transparent sprite pixel.
pub const TRANSPARENT: u16 = 0x07E0;

/// Width of one sprite cell in pixels.
pub const SPRITE_W: usize = 32;
/// Height of one sprite cell in pixels.
pub const SPRITE_H: usize = 32;

/// The animations of the cat sprite sheet, one per row.
#[derive(Clone, Copy, PartialEq, Eq, Debug, Structural)]
pub enum Sheet {
    IdleA,
    IdleB,
    CleanA,
    CleanB,
    WalkA,
    WalkB,
    Sleep,
    Paw,
    Jump,
    Scared,
}

/// The row of the sprite sheet that holds an animation.
pub open spec fn sheet_row_spec(s: Sheet) -> u32 {
    match s {
        Sheet::IdleA => 0,
        Sheet::IdleB => 1,
        Sheet::CleanA => 2,
        Sheet::CleanB => 3,
        Sheet::WalkA => 4,
        Sheet::WalkB => 5,
        Sheet::Sleep => 6,
        Sheet::Paw => 7,
        Sheet::Jump => 8,
        Sheet::Scared => 9,
    }
}

/// The number of frames of an animation.
pub open spec fn sheet_frames_spec(s: Sheet) -> u32 {
    match s {
        Sheet::IdleA | Sheet::IdleB | Sheet::CleanA | Sheet::CleanB | Sheet::Sleep => 4,
        Sheet::WalkA | Sheet::WalkB | Sheet::Scared => 8,
        Sheet::Paw => 6,
        Sheet::Jump => 7,
    }
}

/// The row of the sprite sheet that holds an animation.
pub fn sheet_row(s: Sheet) -> (r: u32)
    ensures
        r == sheet_row_spec(s),
{
    match s {
        Sheet::IdleA => 0,
        Sheet::IdleB => 1,
        Sheet::CleanA => 2,
        Sheet::CleanB => 3,
        Sheet::WalkA => 4,
        Sheet::WalkB => 5,
        Sheet::Sleep => 6,
        Sheet::Paw => 7,
        Sheet::Jump => 8,
        Sheet::Scared => 9,
    }
}

/// The number of frames of an animation.
pub fn sheet_frames(s: Sheet) -> (n: u32)
    ensures
        n == sheet_frames_spec(s),
        1 <= n <= 8,
{
    match s {
        Sheet::IdleA | Sheet::IdleB | Sheet::CleanA | Sheet::CleanB | Sheet::Sleep => 4,
        Sheet::WalkA | Sheet::WalkB | Sheet::Scared => 8,
        Sheet::Paw => 6,
        Sheet::Jump => 7,
    }
}


/// The layout of the cat sheet, as its artist drew it: one animation per row,
/// top to bottom idle A (4 frames), idle B (4), clean A (4), clean B (4),
/// walk A (8), walk B (8), sleep (4), paw (6), jump (7), scared (8). No two
/// animations share a row.
pub proof fn lemma_sheet_layout()
    ensures
        sheet_row_spec(Sheet::IdleA) == 0 && sheet_frames_spec(Sheet::IdleA) == 4,
        sheet_row_spec(Sheet::IdleB) == 1 && sheet_frames_spec(Sheet::IdleB) == 4,
        sheet_row_spec(Sheet::CleanA) == 2 && sheet_frames_spec(Sheet::CleanA) == 4,
        sheet_row_spec(Sheet::CleanB) == 3 && sheet_frames_spec(Sheet::CleanB) == 4,
        sheet_row_spec(Sheet::WalkA) == 4 && sheet_frames_spec(Sheet::WalkA) == 8,
        sheet_row_spec(Sheet::WalkB) == 5 && sheet_frames_spec(Sheet::WalkB) == 8,
        sheet_row_spec(Sheet::Sleep) == 6 && sheet_frames_spec(Sheet::Sleep) == 4,
        sheet_row_spec(Sheet::Paw) == 7 && sheet_frames_spec(Sheet::Paw) == 6,
        sheet_row_spec(Sheet::Jump) == 8 && sheet_frames_spec(Sheet::Jump) == 7,
        sheet_row_spec(Sheet::Scared) == 9 && sheet_frames_spec(Sheet::Scared) == 8,
        forall|a: Sheet, b: Sheet| #[trigger] sheet_row_spec(a) == #[trigger] sheet_row_spec(b) ==> a == b,
{
}

} // verus!
