//! Terminal escape text for draw instructions, produced by termion.

use vstd::prelude::*;
use crate::decimal::decimal;
use crate::draw::{DrawInstruction, DrawOp, ops_of};

verus! {

/// The control sequence introducer, `ESC [`.
pub open spec fn csi() -> Seq<char> {
    seq!['\u{1b}', '[']
}

/// Moves the cursor to one-based `(col, row)`: `ESC [ row ; col H`.
pub open spec fn goto_text(col: nat, row: nat) -> Seq<char> {
    csi() + decimal(row) + seq![';'] + decimal(col) + seq!['H']
}

/// Clears the whole screen: `ESC [ 2 J`.
pub open spec fn clear_all_text() -> Seq<char> {
    csi() + seq!['2', 'J']
}

/// Hides the cursor: `ESC [ ? 25 l`.
pub open spec fn hide_text() -> Seq<char> {
    csi() + seq!['?', '2', '5', 'l']
}

/// Whether a cursor position can be sent: both coordinates fit the
/// terminal's 16-bit range, and they are not both zero (positions are one-based).
pub open spec fn position_ok(col: nat, row: nat) -> bool {
    col <= u16::MAX && row <= u16::MAX && !(col == 0 && row == 0)
}

/// The text sent for one instruction, or `None` when its position cannot be sent.
pub open spec fn op_text(op: DrawOp) -> Option<Seq<char>> {
    match op {
        DrawOp::Move(c, r) => if position_ok(c, r) { Some(goto_text(c, r)) } else { None },
        DrawOp::Write(t) => Some(t),
    }
}

/// The text sent for a whole sequence: each instruction's text in order, or
/// `None` when any of them cannot be sent.
pub open spec fn ops_text(ops: Seq<DrawOp>) -> Option<Seq<char>>
    decreases ops.len(),
{
    if ops.len() == 0 {
        Some(Seq::empty())
    } else {
        match (ops_text(ops.drop_last()), op_text(ops.last())) {
            (Some(a), Some(b)) => Some(a + b),
            _ => None,
        }
    }
}

/// Relies on the `Display` of `termion::cursor::Goto`: it writes
/// `ESC [ row ; col H` with both numbers in decimal, and debug-asserts that the
/// position is not `(0, 0)`.
#[verifier::external_body]
fn goto_code(col: u16, row: u16) -> (r: String)
    requires
        !(col == 0 && row == 0),
    ensures
        r@ == goto_text(col as nat, row as nat),
{
    format!("{}", termion::cursor::Goto(col, row))
}

/// Relies on the `Display` of `termion::clear::All`: it writes `ESC [ 2 J`.
#[verifier::external_body]
fn clear_all_code() -> (r: String)
    ensures
        r@ == clear_all_text(),
{
    format!("{}", termion::clear::All)
}

/// Relies on the `Display` of `termion::cursor::Hide`: it writes `ESC [ ? 25 l`.
#[verifier::external_body]
fn hide_code() -> (r: String)
    ensures
        r@ == hide_text(),
{
    format!("{}", termion::cursor::Hide)
}

/// The text that moves the cursor to `(col, row)`, or `None` when that
/// position cannot be sent.
pub fn move_code(col: u32, row: u32) -> (r: Option<String>)
    ensures
        r.is_some() <==> position_ok(col as nat, row as nat),
        r.is_some() ==> r.unwrap()@ == goto_text(col as nat, row as nat),
{
    if col <= 65535 && row <= 65535 && !(col == 0 && row == 0) {
        Some(goto_code(col as u16, row as u16))
    } else {
        None
    }
}

/// The text that homes the cursor and clears the screen.
pub fn clear_console_code() -> (r: String)
    ensures
        r@ == goto_text(1, 1) + clear_all_text(),
{
    let mut t = goto_code(1, 1);
    let c = clear_all_code();
    t.append(c.as_str());
    t
}

/// The text that hides the cursor.
pub fn hide_cursor_code() -> (r: String)
    ensures
        r@ == hide_text(),
{
    hide_code()
}

/// The text to send to the terminal for `instrs`, or `None` when one of its
/// cursor positions cannot be sent.
pub fn encode(instrs: &Vec<DrawInstruction>) -> (r: Option<String>)
    ensures
        r.is_some() <==> ops_text(ops_of(instrs@)).is_some(),
        r.is_some() ==> r.unwrap()@ == ops_text(ops_of(instrs@)).unwrap(),
{
    let mut out = String::new();
    let mut i: usize = 0;
    while i < instrs.len()
        invariant
            i <= instrs@.len(),
            ops_text(ops_of(instrs@.subrange(0, i as int))) == Some(out@),
        decreases instrs@.len() - i,
    {
        let ghost pre = instrs@.subrange(0, i as int);
        let ghost next = instrs@.subrange(0, i + 1);
        proof {
            assert(ops_of(next).drop_last() =~= ops_of(pre));
            assert(ops_of(next).last() == instrs@[i as int]@);
        }
        match &instrs[i] {
            DrawInstruction::MoveCursor(c, r) => {
                match move_code(*c, *r) {
                    Some(code) => out.append(code.as_str()),
                    None => {
                        proof {
                            lemma_ops_text_none_extends(instrs@, i as int + 1);
                        }
                        return None;
                    },
                }
            },
            DrawInstruction::WriteText(t) => out.append(t.as_str()),
        }
        i = i + 1;
    }
    assert(instrs@.subrange(0, i as int) =~= instrs@);
    Some(out)
}

proof fn lemma_ops_text_none_extends(s: Seq<DrawInstruction>, k: int)
    requires
        0 <= k <= s.len(),
        ops_text(ops_of(s.subrange(0, k))) is None,
    ensures
        ops_text(ops_of(s)) is None,
    decreases s.len() - k,
{
    if k < s.len() {
        let next = s.subrange(0, k + 1);
        assert(ops_of(next).drop_last() =~= ops_of(s.subrange(0, k)));
        lemma_ops_text_none_extends(s, k + 1);
    } else {
        assert(s.subrange(0, k) =~= s);
    }
}

} // verus!
