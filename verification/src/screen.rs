//! Screen commands: the editor's output language.
//!
//! The editor never writes to the terminal itself; every operation returns a
//! sequence of `ScreenCommand` values, and the host executes them. `CmdModel`
//! is the spec-level value of a command, and `apply_cmds` models what a
//! command sequence does to the physical terminal cursor (on an unbounded
//! grid), so that the executable code can be proved to keep the physical
//! cursor in step with the logical one.

use vstd::prelude::*;

use crate::direction::Direction;
use crate::model::TextModel;

verus! {

/// One command to the terminal: a cursor movement, a clear, a text write or
/// a colour change.
#[derive(Debug)]
pub enum ScreenCommand {
    MoveRight(usize),
    MoveLeft(usize),
    MoveUp(usize),
    MoveDown(usize),
    MoveToNextLine,
    MoveToColumn(usize),
    MoveToRow(usize),
    MoveTo(usize, usize),
    SavePosition,
    RestorePosition,
    ClearCurrentLine,
    ClearAll,
    ClearFromCursorDown,
    Print(Vec<char>),
    SetStatusColor,
    ResetColor,
}

/// Spec-level value of a screen command.
pub ghost enum CmdModel {
    MoveRight(nat),
    MoveLeft(nat),
    MoveUp(nat),
    MoveDown(nat),
    MoveToNextLine,
    MoveToColumn(nat),
    MoveToRow(nat),
    MoveTo(nat, nat),
    SavePosition,
    RestorePosition,
    ClearCurrentLine,
    ClearAll,
    ClearFromCursorDown,
    Print(Seq<char>),
    SetStatusColor,
    ResetColor,
}

impl View for ScreenCommand {
    type V = CmdModel;

    open spec fn view(&self) -> CmdModel {
        match self {
            ScreenCommand::MoveRight(n) => CmdModel::MoveRight(*n as nat),
            ScreenCommand::MoveLeft(n) => CmdModel::MoveLeft(*n as nat),
            ScreenCommand::MoveUp(n) => CmdModel::MoveUp(*n as nat),
            ScreenCommand::MoveDown(n) => CmdModel::MoveDown(*n as nat),
            ScreenCommand::MoveToNextLine => CmdModel::MoveToNextLine,
            ScreenCommand::MoveToColumn(n) => CmdModel::MoveToColumn(*n as nat),
            ScreenCommand::MoveToRow(n) => CmdModel::MoveToRow(*n as nat),
            ScreenCommand::MoveTo(c, r) => CmdModel::MoveTo(*c as nat, *r as nat),
            ScreenCommand::SavePosition => CmdModel::SavePosition,
            ScreenCommand::RestorePosition => CmdModel::RestorePosition,
            ScreenCommand::ClearCurrentLine => CmdModel::ClearCurrentLine,
            ScreenCommand::ClearAll => CmdModel::ClearAll,
            ScreenCommand::ClearFromCursorDown => CmdModel::ClearFromCursorDown,
            ScreenCommand::Print(v) => CmdModel::Print(v@),
            ScreenCommand::SetStatusColor => CmdModel::SetStatusColor,
            ScreenCommand::ResetColor => CmdModel::ResetColor,
        }
    }
}

/// The spec-level values of a sequence of commands.
pub open spec fn cmd_views(s: Seq<ScreenCommand>) -> Seq<CmdModel> {
    s.map(|i: int, c: ScreenCommand| c@)
}

/// Model of the physical terminal cursor: its position and the position the
/// last save command stored. The grid is unbounded: clipping at the screen
/// edge is not modelled.
#[verifier::ext_equal]
pub ghost struct ScreenState {
    pub row: int,
    pub col: int,
    pub saved_row: int,
    pub saved_col: int,
}

/// What one command does to the physical cursor. Printing a text advances
/// the cursor by its length; clears and colours move nothing.
pub open spec fn apply_cmd(s: ScreenState, c: CmdModel) -> ScreenState {
    match c {
        CmdModel::MoveRight(n) => ScreenState { col: s.col + n, ..s },
        CmdModel::MoveLeft(n) => ScreenState { col: s.col - n, ..s },
        CmdModel::MoveUp(n) => ScreenState { row: s.row - n, ..s },
        CmdModel::MoveDown(n) => ScreenState { row: s.row + n, ..s },
        CmdModel::MoveToNextLine => ScreenState { row: s.row + 1, col: 0, ..s },
        CmdModel::MoveToColumn(n) => ScreenState { col: n as int, ..s },
        CmdModel::MoveToRow(n) => ScreenState { row: n as int, ..s },
        CmdModel::MoveTo(c0, r0) => ScreenState { row: r0 as int, col: c0 as int, ..s },
        CmdModel::SavePosition => ScreenState { saved_row: s.row, saved_col: s.col, ..s },
        CmdModel::RestorePosition => ScreenState { row: s.saved_row, col: s.saved_col, ..s },
        CmdModel::ClearCurrentLine => s,
        CmdModel::ClearAll => s,
        CmdModel::ClearFromCursorDown => s,
        CmdModel::Print(txt) => ScreenState { col: s.col + txt.len(), ..s },
        CmdModel::SetStatusColor => s,
        CmdModel::ResetColor => s,
    }
}

/// What a command sequence does to the physical cursor, first command first.
pub open spec fn apply_cmds(s: ScreenState, cs: Seq<CmdModel>) -> ScreenState
    decreases cs.len(),
{
    if cs.len() == 0 {
        s
    } else {
        apply_cmds(apply_cmd(s, cs[0]), cs.skip(1))
    }
}

/// The command sequence carries the physical cursor from (r0, c0) to
/// (r1, c1), whatever position was saved before.
pub open spec fn repositions(cs: Seq<CmdModel>, r0: nat, c0: nat, r1: nat, c1: nat) -> bool {
    forall|s: ScreenState|
        s.row == r0 && s.col == c0 ==> (#[trigger] apply_cmds(s, cs)).row == r1 && apply_cmds(
            s,
            cs,
        ).col == c1
}

/// The command sequence leaves the physical cursor where it found it.
pub open spec fn keeps_position(cs: Seq<CmdModel>) -> bool {
    forall|s: ScreenState|
        (#[trigger] apply_cmds(s, cs)).row == s.row && apply_cmds(s, cs).col == s.col
}

/// Applying a concatenation is applying the parts in turn.
pub proof fn lemma_apply_cmds_concat(s: ScreenState, a: Seq<CmdModel>, b: Seq<CmdModel>)
    ensures
        apply_cmds(s, a + b) == apply_cmds(apply_cmds(s, a), b),
    decreases a.len(),
{
    if a.len() == 0 {
        assert(a + b =~= b);
    } else {
        assert((a + b)[0] == a[0]);
        assert((a + b).skip(1) =~= a.skip(1) + b);
        lemma_apply_cmds_concat(apply_cmd(s, a[0]), a.skip(1), b);
    }
}

/// The commands a right move issues: one step right mid-line, a move to the
/// start of the next line at line end, nothing at the buffer end.
pub open spec fn right_cmds(t: TextModel) -> Seq<CmdModel> {
    if t.col < t.cur_line().len() {
        seq![CmdModel::MoveRight(1)]
    } else if t.row + 1 < t.lines.len() {
        seq![CmdModel::MoveToNextLine]
    } else {
        Seq::<CmdModel>::empty()
    }
}

/// The commands a left move issues.
pub open spec fn left_cmds(t: TextModel) -> Seq<CmdModel> {
    if t.col > 0 {
        seq![CmdModel::MoveLeft(1)]
    } else if t.row > 0 {
        seq![
            CmdModel::MoveToColumn(t.lines[t.row - 1].len()),
            CmdModel::MoveToRow((t.row - 1) as nat),
        ]
    } else {
        Seq::<CmdModel>::empty()
    }
}

/// The commands a down move issues; the column move comes first when the
/// next line is shorter than the current column.
pub open spec fn down_cmds(t: TextModel) -> Seq<CmdModel> {
    if t.row + 1 >= t.lines.len() {
        Seq::<CmdModel>::empty()
    } else {
        let nl = t.lines[t.row as int + 1].len();
        if t.col > nl {
            seq![CmdModel::MoveToColumn(nl), CmdModel::MoveDown(1)]
        } else {
            seq![CmdModel::MoveDown(1)]
        }
    }
}

/// The commands an up move issues.
pub open spec fn up_cmds(t: TextModel) -> Seq<CmdModel> {
    if t.row == 0 {
        Seq::<CmdModel>::empty()
    } else {
        let pl = t.lines[t.row - 1].len();
        if t.col > pl {
            seq![CmdModel::MoveToColumn(pl), CmdModel::MoveUp(1)]
        } else {
            seq![CmdModel::MoveUp(1)]
        }
    }
}

/// The commands a move in the given direction issues.
pub open spec fn dir_cmds(t: TextModel, d: Direction) -> Seq<CmdModel> {
    match d {
        Direction::Up => up_cmds(t),
        Direction::Down => down_cmds(t),
        Direction::Left => left_cmds(t),
        Direction::Right => right_cmds(t),
    }
}

/// The commands typing a character sequence issues: the cursor follows each
/// inserted character, and each newline moves it to the start of a new line.
pub open spec fn typing_cmds(s: Seq<char>) -> Seq<CmdModel> {
    s.map(
        |i: int, c: char|
            if c == '\n' {
                CmdModel::MoveToNextLine
            } else {
                CmdModel::MoveRight(1)
            },
    )
}

/// The commands a backspace issues. Joining two lines shrinks the line
/// count, so everything from the cursor down is cleared for a clean redraw.
pub open spec fn backspace_cmds(t: TextModel) -> Seq<CmdModel> {
    if t.col > 0 {
        seq![CmdModel::MoveLeft(1)]
    } else if t.row > 0 {
        seq![
            CmdModel::ClearFromCursorDown,
            CmdModel::MoveToColumn(t.lines[t.row - 1].len() + t.cur_line().len()),
            CmdModel::MoveToRow((t.row - 1) as nat),
            CmdModel::MoveToColumn(t.lines[t.row - 1].len()),
        ]
    } else {
        Seq::<CmdModel>::empty()
    }
}

/// The commands a forward delete issues: the cursor stays put; a join
/// clears from the cursor down for a clean redraw.
pub open spec fn delete_cmds(t: TextModel) -> Seq<CmdModel> {
    if t.col < t.cur_line().len() {
        Seq::<CmdModel>::empty()
    } else if t.row + 1 < t.lines.len() {
        seq![CmdModel::ClearFromCursorDown]
    } else {
        Seq::<CmdModel>::empty()
    }
}

/// A sequence with no save command does not change the saved position.
pub proof fn lemma_no_save_keeps_saved(s: ScreenState, cs: Seq<CmdModel>)
    requires
        forall|i: int| 0 <= i < cs.len() ==> cs[i] != CmdModel::SavePosition,
    ensures
        apply_cmds(s, cs).saved_row == s.saved_row,
        apply_cmds(s, cs).saved_col == s.saved_col,
    decreases cs.len(),
{
    if cs.len() > 0 {
        lemma_no_save_keeps_saved(apply_cmd(s, cs[0]), cs.skip(1));
    }
}

} // verus!
