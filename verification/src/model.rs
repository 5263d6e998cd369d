//! Mathematical model of the editor state and of every editing step.
//!
//! `TextModel` is the abstract value of the buffer together with the cursor;
//! `TermModel` adds the input mode, the running flag and the viewport size.
//! Each buffer or cursor operation of the editor has a spec-level step
//! function here, and the executable code is proved to follow it exactly.

use vstd::prelude::*;

use crate::direction::Direction;
use crate::mode::Mode;

verus! {

/// Abstract state of the text: the buffer lines and the cursor.
///
/// The cursor column may equal the length of the current line, meaning
/// "after the last character".
#[verifier::ext_equal]
pub ghost struct TextModel {
    pub lines: Seq<Seq<char>>,
    pub row: nat,
    pub col: nat,
}

impl TextModel {
    /// The line the cursor is on.
    pub open spec fn cur_line(self) -> Seq<char> {
        self.lines[self.row as int]
    }

    /// Well-formedness: at least one line (an empty buffer is one empty
    /// line), the cursor row names an existing line, and the cursor column
    /// is at most that line's length.
    pub open spec fn wf(self) -> bool {
        &&& self.lines.len() >= 1
        &&& self.row < self.lines.len()
        &&& self.col <= self.cur_line().len()
    }

    /// Cursor at the very end of the buffer: end of the last line.
    pub open spec fn at_end(self) -> bool {
        self.row + 1 == self.lines.len() && self.col == self.cur_line().len()
    }

    /// Cursor at the very start of the buffer.
    pub open spec fn at_start(self) -> bool {
        self.row == 0 && self.col == 0
    }
}

/// Move right: one column forward mid-line; at line end, to the start of the
/// next line; at the end of the buffer, no move.
pub open spec fn right_of(t: TextModel) -> TextModel {
    if t.col < t.cur_line().len() {
        TextModel { col: t.col + 1, ..t }
    } else if t.row + 1 < t.lines.len() {
        TextModel { row: t.row + 1, col: 0, ..t }
    } else {
        t
    }
}

/// Move left: one column back mid-line; at column 0, to the end of the
/// previous line; at the start of the buffer, no move.
pub open spec fn left_of(t: TextModel) -> TextModel {
    if t.col > 0 {
        TextModel { col: (t.col - 1) as nat, ..t }
    } else if t.row > 0 {
        TextModel { row: (t.row - 1) as nat, col: t.lines[t.row - 1].len(), ..t }
    } else {
        t
    }
}

/// Move down one row, clamping the column to the next line's length.
/// On the last row, no move. The pre-clamp column is not remembered.
pub open spec fn down_of(t: TextModel) -> TextModel {
    if t.row + 1 >= t.lines.len() {
        t
    } else {
        let nl = t.lines[t.row as int + 1].len();
        TextModel { row: t.row + 1, col: if t.col > nl { nl } else { t.col }, ..t }
    }
}

/// Move up one row, clamping the column to the previous line's length.
/// On the first row, no move. The pre-clamp column is not remembered.
pub open spec fn up_of(t: TextModel) -> TextModel {
    if t.row == 0 {
        t
    } else {
        let pl = t.lines[t.row - 1].len();
        TextModel { row: (t.row - 1) as nat, col: if t.col > pl { pl } else { t.col }, ..t }
    }
}

/// A move in the given direction.
pub open spec fn dir_step(t: TextModel, d: Direction) -> TextModel {
    match d {
        Direction::Up => up_of(t),
        Direction::Down => down_of(t),
        Direction::Left => left_of(t),
        Direction::Right => right_of(t),
    }
}

/// Split the current line at the cursor: the text at and after the cursor
/// column becomes a new line right below, and the cursor moves to its start.
pub open spec fn split_of(t: TextModel) -> TextModel {
    let l = t.cur_line();
    TextModel {
        lines: t.lines.update(t.row as int, l.take(t.col as int)).insert(
            t.row as int + 1,
            l.skip(t.col as int),
        ),
        row: t.row + 1,
        col: 0,
    }
}

/// Insert one ordinary character (not a newline) at the cursor and advance
/// the column by one.
pub open spec fn insert_char_of(t: TextModel, c: char) -> TextModel {
    TextModel {
        lines: t.lines.update(t.row as int, t.cur_line().insert(t.col as int, c)),
        row: t.row,
        col: t.col + 1,
    }
}

/// One typed character: a newline splits the line, anything else is inserted.
pub open spec fn type_char_of(t: TextModel, c: char) -> TextModel {
    if c == '\n' {
        split_of(t)
    } else {
        insert_char_of(t, c)
    }
}

/// Typing a whole sequence of characters, first character first.
pub open spec fn insert_text_of(t: TextModel, s: Seq<char>) -> TextModel
    decreases s.len(),
{
    if s.len() == 0 {
        t
    } else {
        insert_text_of(type_char_of(t, s[0]), s.skip(1))
    }
}

/// Backspace: at the buffer start, no change; mid-line, delete the character
/// before the cursor and move left; at column 0 of a later row, join the
/// current line onto the end of the previous one and put the cursor at the
/// join point.
pub open spec fn backspace_of(t: TextModel) -> TextModel {
    if t.col > 0 {
        TextModel {
            lines: t.lines.update(t.row as int, t.cur_line().remove(t.col - 1)),
            row: t.row,
            col: (t.col - 1) as nat,
        }
    } else if t.row > 0 {
        let joined = t.lines[t.row - 1] + t.cur_line();
        TextModel {
            lines: t.lines.update(t.row - 1, joined).remove(t.row as int),
            row: (t.row - 1) as nat,
            col: t.lines[t.row - 1].len(),
        }
    } else {
        t
    }
}

/// Forward delete: mid-line, remove the character at the cursor; at line end,
/// join the next line onto this one; at the buffer end, no change. The cursor
/// does not move.
pub open spec fn delete_of(t: TextModel) -> TextModel {
    if t.col < t.cur_line().len() {
        TextModel {
            lines: t.lines.update(t.row as int, t.cur_line().remove(t.col as int)),
            ..t
        }
    } else if t.row + 1 < t.lines.len() {
        TextModel {
            lines: t.lines.update(t.row as int, t.cur_line() + t.lines[t.row as int + 1]).remove(
                t.row as int + 1,
            ),
            ..t
        }
    } else {
        t
    }
}

/// Abstract state of the whole editing session.
#[verifier::ext_equal]
pub ghost struct TermModel {
    pub text: TextModel,
    pub mode: Mode,
    pub running: bool,
    pub columns: u16,
    pub rows: u16,
}

/// The same session state with the text part replaced.
pub open spec fn with_text(m: TermModel, t: TextModel) -> TermModel {
    TermModel { text: t, ..m }
}

/// The same session state with the mode replaced.
pub open spec fn with_mode(m: TermModel, mode: Mode) -> TermModel {
    TermModel { mode, ..m }
}

/// Typing a single character is one typing step.
pub proof fn lemma_insert_single(t: TextModel, c: char)
    ensures
        insert_text_of(t, seq![c]) == type_char_of(t, c),
{
    assert(seq![c].skip(1) =~= Seq::<char>::empty());
    assert(seq![c][0] == c);
    assert(insert_text_of(type_char_of(t, c), Seq::<char>::empty()) == type_char_of(t, c));
}

/// Typing one more character at the end types the prefix first.
pub proof fn lemma_insert_text_push(t: TextModel, s: Seq<char>, c: char)
    ensures
        insert_text_of(t, s.push(c)) == type_char_of(insert_text_of(t, s), c),
    decreases s.len(),
{
    if s.len() == 0 {
        assert(s.push(c)[0] == c);
        assert(s.push(c).skip(1) =~= Seq::<char>::empty());
        assert(insert_text_of(type_char_of(t, c), s.push(c).skip(1)) == type_char_of(t, c));
    } else {
        assert(s.push(c)[0] == s[0]);
        assert(s.push(c).skip(1) =~= s.skip(1).push(c));
        lemma_insert_text_push(type_char_of(t, s[0]), s.skip(1), c);
    }
}

/// Every movement step keeps the buffer and keeps the state well-formed.
pub proof fn lemma_moves_wf(t: TextModel)
    requires
        t.wf(),
    ensures
        right_of(t).wf() && right_of(t).lines == t.lines,
        left_of(t).wf() && left_of(t).lines == t.lines,
        up_of(t).wf() && up_of(t).lines == t.lines,
        down_of(t).wf() && down_of(t).lines == t.lines,
{
}

/// Every editing step keeps the state well-formed.
pub proof fn lemma_edits_wf(t: TextModel, c: char)
    requires
        t.wf(),
    ensures
        split_of(t).wf(),
        insert_char_of(t, c).wf(),
        type_char_of(t, c).wf(),
        backspace_of(t).wf(),
        delete_of(t).wf(),
{
}

/// Typing any sequence of characters keeps the state well-formed.
pub proof fn lemma_insert_text_wf(t: TextModel, s: Seq<char>)
    requires
        t.wf(),
    ensures
        insert_text_of(t, s).wf(),
    decreases s.len(),
{
    if s.len() > 0 {
        lemma_edits_wf(t, s[0]);
        lemma_insert_text_wf(type_char_of(t, s[0]), s.skip(1));
    }
}

} // verus!
