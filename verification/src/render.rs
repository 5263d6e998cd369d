//! Projection of the editor state onto the terminal: the full-buffer redraw
//! and the status line, as a sequence of screen commands.

use vstd::prelude::*;

use crate::mode::{mode_label, Mode};
use crate::model::TermModel;
use crate::screen::CmdModel;

verus! {

/// The decimal digit character of a value below ten.
pub open spec fn digit_char(d: nat) -> char {
    if d == 0 {
        '0'
    } else if d == 1 {
        '1'
    } else if d == 2 {
        '2'
    } else if d == 3 {
        '3'
    } else if d == 4 {
        '4'
    } else if d == 5 {
        '5'
    } else if d == 6 {
        '6'
    } else if d == 7 {
        '7'
    } else if d == 8 {
        '8'
    } else {
        '9'
    }
}

/// The decimal digits of a number, most significant first.
pub open spec fn dec_digits(n: nat) -> Seq<char>
    decreases n,
{
    if n < 10 {
        seq![digit_char(n)]
    } else {
        dec_digits(n / 10).push(digit_char(n % 10))
    }
}

fn digit_char_of(d: usize) -> (r: char)
    requires
        d < 10,
    ensures
        r == digit_char(d as nat),
{
    match d {
        0 => '0',
        1 => '1',
        2 => '2',
        3 => '3',
        4 => '4',
        5 => '5',
        6 => '6',
        7 => '7',
        8 => '8',
        _ => '9',
    }
}

/// The decimal digits of a number as characters, most significant first.
pub fn decimal_chars(n: usize) -> (r: Vec<char>)
    ensures
        r@ == dec_digits(n as nat),
    decreases n,
{
    if n < 10 {
        let mut v: Vec<char> = Vec::new();
        v.push(digit_char_of(n));
        proof {
            assert(v@ =~= seq![digit_char(n as nat)]);
        }
        v
    } else {
        let mut v = decimal_chars(n / 10);
        v.push(digit_char_of(n % 10));
        v
    }
}

/// A copy of one line's characters.
pub fn copy_line(l: &Vec<char>) -> (r: Vec<char>)
    ensures
        r@ == l@,
{
    let mut r: Vec<char> = Vec::new();
    let mut i: usize = 0;
    while i < l.len()
        invariant
            i <= l@.len(),
            r@ == l@.take(i as int),
        decreases l@.len() - i,
    {
        r.push(l[i]);
        i = i + 1;
        proof {
            assert(l@.take(i as int) =~= l@.take(i as int - 1).push(l@[i as int - 1]));
        }
    }
    proof {
        assert(l@.take(l@.len() as int) =~= l@);
    }
    r
}

/// The left text of the status line: the mode label with one space around.
pub open spec fn status_left(m: Mode) -> Seq<char> {
    seq![' '] + mode_label(m) + seq![' ']
}

/// The right text of the status line: `row:column` with one space around.
pub open spec fn status_right(row: nat, col: nat) -> Seq<char> {
    seq![' '] + dec_digits(row) + seq![':'] + dec_digits(col) + seq![' ']
}

/// The left status text as characters.
pub fn status_left_chars(m: Mode) -> (r: Vec<char>)
    ensures
        r@ == status_left(m),
{
    let mut v: Vec<char> = Vec::new();
    v.push(' ');
    let mut lab = m.label();
    v.append(&mut lab);
    v.push(' ');
    proof {
        assert(v@ =~= status_left(m));
    }
    v
}

/// The right status text as characters.
pub fn status_right_chars(row: usize, col: usize) -> (r: Vec<char>)
    ensures
        r@ == status_right(row as nat, col as nat),
{
    let mut v: Vec<char> = Vec::new();
    v.push(' ');
    let mut d = decimal_chars(row);
    v.append(&mut d);
    v.push(':');
    let mut d2 = decimal_chars(col);
    v.append(&mut d2);
    v.push(' ');
    proof {
        assert(v@ =~= status_right(row as nat, col as nat));
    }
    v
}

/// The row the status line is drawn on: two above the bottom of the
/// viewport, clamped at the top on a degenerate viewport.
pub open spec fn status_row_of(rows: u16) -> nat {
    if rows >= 2 {
        (rows - 2) as nat
    } else {
        0
    }
}

/// The column the right status text starts at, so that it ends at the right
/// edge of the viewport; clamped at the left on a degenerate viewport.
pub open spec fn status_col_of(columns: u16, len: nat) -> nat {
    if columns >= len {
        (columns - len) as nat
    } else {
        0
    }
}

/// The commands that draw the status line.
pub open spec fn status_cmds(m: TermModel) -> Seq<CmdModel> {
    seq![
        CmdModel::MoveToRow(status_row_of(m.rows)),
        CmdModel::SetStatusColor,
        CmdModel::ClearCurrentLine,
        CmdModel::Print(status_left(m.mode)),
        CmdModel::MoveToColumn(
            status_col_of(m.columns, status_right(m.text.row, m.text.col).len()),
        ),
        CmdModel::Print(status_right(m.text.row, m.text.col)),
        CmdModel::ResetColor,
    ]
}

/// The commands that draw the buffer lines, top to bottom: each line is
/// cleared, printed, and followed by a move to the next line's start.
pub open spec fn line_cmds(lines: Seq<Seq<char>>) -> Seq<CmdModel>
    decreases lines.len(),
{
    if lines.len() == 0 {
        Seq::<CmdModel>::empty()
    } else {
        seq![CmdModel::ClearCurrentLine, CmdModel::Print(lines[0]), CmdModel::MoveToNextLine]
            + line_cmds(lines.skip(1))
    }
}

/// One full repaint: save the cursor, draw every buffer line from the top
/// left, draw the status line, and restore the cursor.
pub open spec fn render_cmds(m: TermModel) -> Seq<CmdModel> {
    seq![CmdModel::SavePosition, CmdModel::MoveTo(0, 0)] + line_cmds(m.text.lines) + status_cmds(
        m,
    ) + seq![CmdModel::RestorePosition]
}

/// Drawing one more line appends that line's three commands.
pub proof fn lemma_line_cmds_push(lines: Seq<Seq<char>>, l: Seq<char>)
    ensures
        line_cmds(lines.push(l)) == line_cmds(lines) + seq![
            CmdModel::ClearCurrentLine,
            CmdModel::Print(l),
            CmdModel::MoveToNextLine,
        ],
    decreases lines.len(),
{
    if lines.len() == 0 {
        assert(lines.push(l)[0] == l);
        assert(lines.push(l).skip(1) =~= Seq::<Seq<char>>::empty());
        assert(line_cmds(lines.push(l).skip(1)) =~= Seq::<CmdModel>::empty());
        assert(line_cmds(lines.push(l)) =~= line_cmds(lines) + seq![
            CmdModel::ClearCurrentLine,
            CmdModel::Print(l),
            CmdModel::MoveToNextLine,
        ]);
    } else {
        assert(lines.push(l).skip(1) =~= lines.skip(1).push(l));
        assert(lines.push(l)[0] == lines[0]);
        lemma_line_cmds_push(lines.skip(1), l);
        assert(line_cmds(lines.push(l)) =~= line_cmds(lines) + seq![
            CmdModel::ClearCurrentLine,
            CmdModel::Print(l),
            CmdModel::MoveToNextLine,
        ]);
    }
}

} // verus!
