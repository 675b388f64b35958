//! Draw instructions: the renderer's output, one cursor move or text write each.

use vstd::prelude::*;

verus! {

/// One step of drawing on a character surface (columns and rows are one-based).
#[derive(Debug, Clone, PartialEq, Eq)]
pub enum DrawInstruction {
    /// Place the cursor at `(column, row)`.
    MoveCursor(u32, u32),
    /// Write text at the cursor.
    WriteText(String),
}

/// The mathematical reading of a draw instruction.
pub enum DrawOp {
    Move(nat, nat),
    Write(Seq<char>),
}

impl View for DrawInstruction {
    type V = DrawOp;

    open spec fn view(&self) -> DrawOp {
        match self {
            DrawInstruction::MoveCursor(c, r) => DrawOp::Move(*c as nat, *r as nat),
            DrawInstruction::WriteText(t) => DrawOp::Write(t@),
        }
    }
}

/// The mathematical reading of a sequence of draw instructions.
pub open spec fn ops_of(s: Seq<DrawInstruction>) -> Seq<DrawOp> {
    s.map_values(|i: DrawInstruction| i@)
}

pub proof fn lemma_ops_of_push(s: Seq<DrawInstruction>, i: DrawInstruction)
    ensures
        ops_of(s.push(i)) == ops_of(s).push(i@),
{
    assert(ops_of(s.push(i)) =~= ops_of(s).push(i@));
}

pub proof fn lemma_ops_of_add(s: Seq<DrawInstruction>, t: Seq<DrawInstruction>)
    ensures
        ops_of(s + t) == ops_of(s) + ops_of(t),
{
    assert(ops_of(s + t) =~= ops_of(s) + ops_of(t));
}

/// Where the cursor stands: a one-based column and row.
#[derive(Debug, Clone, Copy, PartialEq, Eq)]
pub struct Cursor {
    pub col: u32,
    pub row: u32,
}

} // verus!
