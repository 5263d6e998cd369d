//! The editing session: buffer, cursor, mode, viewport and running flag,
//! with every operation proved against the spec model in `model`, and every
//! screen effect returned as commands from `screen`.

use vstd::prelude::*;

use crate::clipboard;
use crate::direction::Direction;
use crate::keyboard::{
    event_cmds, event_step, insert_key_cmds, insert_key_step, is_paste, normal_key_cmds,
    normal_key_step, Event, KeyCode,
};
use crate::mode::Mode;
use crate::model::{
    backspace_of, delete_of, dir_step, down_of, insert_char_of, insert_text_of, left_of,
    lemma_edits_wf, lemma_insert_single, lemma_insert_text_push, lemma_moves_wf, right_of,
    split_of, up_of, with_mode, with_text, TermModel, TextModel,
};
use crate::render::{
    copy_line, lemma_line_cmds_push, line_cmds, render_cmds, status_col_of, status_left_chars,
    status_right, status_right_chars, status_row_of,
};
use crate::laws::{
    lemma_backspace_cmds_reposition, lemma_delete_cmds_keep_position, lemma_move_cmds_reposition,
    lemma_render_keeps_cursor, lemma_typing_cmds_reposition,
};
use crate::screen::{
    backspace_cmds, cmd_views, delete_cmds, dir_cmds, down_cmds, keeps_position, left_cmds,
    repositions, right_cmds, typing_cmds, up_cmds, CmdModel, ScreenCommand,
};

verus! {

/// The terminal editing session.
pub struct Terminal {
    /// Viewport width, changed on resize events.
    columns: u16,
    /// Viewport height, changed on resize events.
    rows: u16,
    /// Current cursor column.
    current_column: usize,
    /// Current cursor row.
    current_row: usize,
    /// The text being edited, one inner vector per line.
    buffer: Vec<Vec<char>>,
    /// Whether the session is still running; cleared by `q` in normal mode.
    is_running: bool,
    /// The current input mode.
    mode: Mode,
}

impl View for Terminal {
    type V = TermModel;

    closed spec fn view(&self) -> TermModel {
        TermModel {
            text: TextModel {
                lines: Seq::new(self.buffer@.len(), |i: int| self.buffer@[i]@),
                row: self.current_row as nat,
                col: self.current_column as nat,
            },
            mode: self.mode,
            running: self.is_running,
            columns: self.columns,
            rows: self.rows,
        }
    }
}

impl Terminal {
    /// A fresh session over the given viewport: one empty line, cursor at
    /// the top left, normal mode, running.
    pub fn new(columns: u16, rows: u16) -> (r: Terminal)
        ensures
            r@.text.wf(),
            r@.text.lines == seq![Seq::<char>::empty()],
            r@.text.row == 0,
            r@.text.col == 0,
            r@.mode == Mode::Normal,
            r@.running,
            r@.columns == columns,
            r@.rows == rows,
    {
        let mut buffer: Vec<Vec<char>> = Vec::new();
        buffer.push(Vec::new());
        let r = Terminal {
            columns,
            rows,
            current_column: 0,
            current_row: 0,
            buffer,
            is_running: true,
            mode: Mode::Normal,
        };
        proof {
            assert(r@.text.lines =~~= seq![Seq::<char>::empty()]);
        }
        r
    }

    /// Whether the session is still running.
    pub fn is_running(&self) -> (r: bool)
        ensures
            r == self@.running,
    {
        self.is_running
    }

    /// The current input mode.
    pub fn mode(&self) -> (r: Mode)
        ensures
            r == self@.mode,
    {
        self.mode
    }

    /// The cursor row.
    pub fn current_row(&self) -> (r: usize)
        ensures
            r as nat == self@.text.row,
    {
        self.current_row
    }

    /// The cursor column.
    pub fn current_column(&self) -> (r: usize)
        ensures
            r as nat == self@.text.col,
    {
        self.current_column
    }

    /// How many lines the buffer holds.
    pub fn line_count(&self) -> (r: usize)
        ensures
            r as nat == self@.text.lines.len(),
    {
        self.buffer.len()
    }

    /// One line of the buffer.
    pub fn line(&self, i: usize) -> (r: &Vec<char>)
        requires
            i < self@.text.lines.len(),
        ensures
            r@ == self@.text.lines[i as int],
    {
        &self.buffer[i]
    }

    /// Move the cursor one step right, wrapping to the start of the next
    /// line at a line end; a no-op at the end of the buffer.
    pub(crate) fn move_right(&mut self) -> (r: Vec<ScreenCommand>)
        requires
            old(self)@.text.wf(),
        ensures
            final(self)@ == with_text(old(self)@, right_of(old(self)@.text)),
            cmd_views(r@) == right_cmds(old(self)@.text),
    {
        let mut cmds: Vec<ScreenCommand> = Vec::new();
        let line_count = self.buffer.len();
        if self.current_column < self.buffer[self.current_row].len() {
            cmds.push(ScreenCommand::MoveRight(1));
            self.current_column = self.current_column + 1;
        } else if self.current_row + 1 < line_count {
            cmds.push(ScreenCommand::MoveToNextLine);
            self.current_column = 0;
            self.current_row = self.current_row + 1;
        }
        proof {
            assert(self@ =~~= with_text(old(self)@, right_of(old(self)@.text)));
            assert(cmd_views(cmds@) =~~= right_cmds(old(self)@.text));
        }
        cmds
    }

    /// Move the cursor one step left, wrapping to the end of the previous
    /// line at column 0; a no-op at the start of the buffer.
    pub(crate) fn move_left(&mut self) -> (r: Vec<ScreenCommand>)
        requires
            old(self)@.text.wf(),
        ensures
            final(self)@ == with_text(old(self)@, left_of(old(self)@.text)),
            cmd_views(r@) == left_cmds(old(self)@.text),
    {
        let mut cmds: Vec<ScreenCommand> = Vec::new();
        if self.current_column > 0 {
            cmds.push(ScreenCommand::MoveLeft(1));
            self.current_column = self.current_column - 1;
        } else if self.current_row > 0 {
            let previous_line_length = self.buffer[self.current_row - 1].len();
            cmds.push(ScreenCommand::MoveToColumn(previous_line_length));
            cmds.push(ScreenCommand::MoveToRow(self.current_row - 1));
            self.current_column = previous_line_length;
            self.current_row = self.current_row - 1;
        }
        proof {
            assert(self@ =~~= with_text(old(self)@, left_of(old(self)@.text)));
            assert(cmd_views(cmds@) =~~= left_cmds(old(self)@.text));
        }
        cmds
    }

    /// Move the cursor one row down, clamping the column to the next line's
    /// length; a no-op on the last row.
    pub(crate) fn move_down(&mut self) -> (r: Vec<ScreenCommand>)
        requires
            old(self)@.text.wf(),
        ensures
            final(self)@ == with_text(old(self)@, down_of(old(self)@.text)),
            cmd_views(r@) == down_cmds(old(self)@.text),
    {
        let mut cmds: Vec<ScreenCommand> = Vec::new();
        let line_count = self.buffer.len();
        if self.current_row + 1 < line_count {
            let next_row_length = self.buffer[self.current_row + 1].len();
            if self.current_column > next_row_length {
                cmds.push(ScreenCommand::MoveToColumn(next_row_length));
                self.current_column = next_row_length;
            }
            self.current_row = self.current_row + 1;
            cmds.push(ScreenCommand::MoveDown(1));
        }
        proof {
            assert(self@ =~~= with_text(old(self)@, down_of(old(self)@.text)));
            assert(cmd_views(cmds@) =~~= down_cmds(old(self)@.text));
        }
        cmds
    }

    /// Move the cursor one row up, clamping the column to the previous
    /// line's length; a no-op on the first row.
    pub(crate) fn move_up(&mut self) -> (r: Vec<ScreenCommand>)
        requires
            old(self)@.text.wf(),
        ensures
            final(self)@ == with_text(old(self)@, up_of(old(self)@.text)),
            cmd_views(r@) == up_cmds(old(self)@.text),
    {
        let mut cmds: Vec<ScreenCommand> = Vec::new();
        if self.current_row > 0 {
            let previous_row_length = self.buffer[self.current_row - 1].len();
            if self.current_column > previous_row_length {
                cmds.push(ScreenCommand::MoveToColumn(previous_row_length));
                self.current_column = previous_row_length;
            }
            self.current_row = self.current_row - 1;
            cmds.push(ScreenCommand::MoveUp(1));
        }
        proof {
            assert(self@ =~~= with_text(old(self)@, up_of(old(self)@.text)));
            assert(cmd_views(cmds@) =~~= up_cmds(old(self)@.text));
        }
        cmds
    }

    /// Move the cursor in the given direction. Movement never fails: at a
    /// buffer boundary it is a no-op.
    pub fn move_cursor(&mut self, direction: Direction) -> (r: Vec<ScreenCommand>)
        requires
            old(self)@.text.wf(),
        ensures
            final(self)@ == with_text(old(self)@, dir_step(old(self)@.text, direction)),
            cmd_views(r@) == dir_cmds(old(self)@.text, direction),
            final(self)@.text.wf(),
            repositions(
                cmd_views(r@),
                old(self)@.text.row,
                old(self)@.text.col,
                final(self)@.text.row,
                final(self)@.text.col,
            ),
    {
        proof {
            lemma_moves_wf(old(self)@.text);
            lemma_move_cmds_reposition(old(self)@.text, direction);
        }
        match direction {
            Direction::Up => self.move_up(),
            Direction::Down => self.move_down(),
            Direction::Left => self.move_left(),
            Direction::Right => self.move_right(),
        }
    }

    /// Split the current line at the cursor (the Enter key): what stands at
    /// and after the cursor becomes a new line below, and the cursor moves
    /// to its start.
    pub fn enter(&mut self) -> (r: Vec<ScreenCommand>)
        requires
            old(self)@.text.wf(),
        ensures
            final(self)@ == with_text(old(self)@, split_of(old(self)@.text)),
            cmd_views(r@) == seq![CmdModel::MoveToNextLine],
            final(self)@.text.wf(),
    {
        // Reading the length first pins it as a machine integer, so the
        // row arithmetic below is known not to overflow.
        let _line_count = self.buffer.len();
        let row = self.current_row;
        let next_line = self.buffer[row].split_off(self.current_column);
        self.buffer.insert(row + 1, next_line);
        self.current_row = row + 1;
        self.current_column = 0;
        let mut cmds: Vec<ScreenCommand> = Vec::new();
        cmds.push(ScreenCommand::MoveToNextLine);
        proof {
            assert(self@.text.lines =~~= split_of(old(self)@.text).lines);
            assert(self@ =~~= with_text(old(self)@, split_of(old(self)@.text)));
            assert(cmd_views(cmds@) =~~= seq![CmdModel::MoveToNextLine]);
        }
        cmds
    }

    /// Backspace: at the buffer start a no-op; mid-line, delete the
    /// character before the cursor and move left; at column 0, join the
    /// current line onto the end of the previous one, clear from the cursor
    /// down for a clean redraw, and move the cursor to the join point.
    pub fn backspace(&mut self) -> (r: Vec<ScreenCommand>)
        requires
            old(self)@.text.wf(),
        ensures
            final(self)@ == with_text(old(self)@, backspace_of(old(self)@.text)),
            cmd_views(r@) == backspace_cmds(old(self)@.text),
            final(self)@.text.wf(),
            repositions(
                cmd_views(r@),
                old(self)@.text.row,
                old(self)@.text.col,
                final(self)@.text.row,
                final(self)@.text.col,
            ),
    {
        proof {
            lemma_backspace_cmds_reposition(old(self)@.text);
        }
        let mut cmds: Vec<ScreenCommand> = Vec::new();
        if self.current_column == 0 && self.current_row == 0 {
            proof {
                assert(self@ =~~= with_text(old(self)@, backspace_of(old(self)@.text)));
                assert(cmd_views(cmds@) =~~= backspace_cmds(old(self)@.text));
            }
            return cmds;
        }
        if self.current_column != 0 {
            let row = self.current_row;
            self.buffer[row].remove(self.current_column - 1);
            self.current_column = self.current_column - 1;
            cmds.push(ScreenCommand::MoveLeft(1));
            proof {
                assert(self@.text.lines =~~= backspace_of(old(self)@.text).lines);
                assert(self@ =~~= with_text(old(self)@, backspace_of(old(self)@.text)));
                assert(cmd_views(cmds@) =~~= backspace_cmds(old(self)@.text));
            }
            return cmds;
        }
        let row = self.current_row;
        let previous_line_len = self.buffer[row - 1].len();
        let mut current_line = self.buffer.remove(row);
        self.buffer[row - 1].append(&mut current_line);
        let joined_len = self.buffer[row - 1].len();
        cmds.push(ScreenCommand::ClearFromCursorDown);
        cmds.push(ScreenCommand::MoveToColumn(joined_len));
        cmds.push(ScreenCommand::MoveToRow(row - 1));
        cmds.push(ScreenCommand::MoveToColumn(previous_line_len));
        self.current_row = row - 1;
        self.current_column = previous_line_len;
        proof {
            assert(self@.text.lines =~~= backspace_of(old(self)@.text).lines);
            assert(self@ =~~= with_text(old(self)@, backspace_of(old(self)@.text)));
            assert(cmd_views(cmds@) =~~= backspace_cmds(old(self)@.text));
        }
        cmds
    }

    /// Forward delete (the Delete key): mid-line, remove the character at
    /// the cursor; at a line end, join the next line onto this one; at the
    /// buffer end a no-op. The cursor does not move.
    pub fn delete(&mut self) -> (r: Vec<ScreenCommand>)
        requires
            old(self)@.text.wf(),
        ensures
            final(self)@ == with_text(old(self)@, delete_of(old(self)@.text)),
            cmd_views(r@) == delete_cmds(old(self)@.text),
            final(self)@.text.wf(),
            keeps_position(cmd_views(r@)),
    {
        proof {
            lemma_delete_cmds_keep_position(old(self)@.text);
        }
        let mut cmds: Vec<ScreenCommand> = Vec::new();
        let line_count = self.buffer.len();
        let row = self.current_row;
        if self.current_column < self.buffer[row].len() {
            self.buffer[row].remove(self.current_column);
        } else if row + 1 < line_count {
            let mut next_line = self.buffer.remove(row + 1);
            self.buffer[row].append(&mut next_line);
            cmds.push(ScreenCommand::ClearFromCursorDown);
        }
        proof {
            assert(self@.text.lines =~~= delete_of(old(self)@.text).lines);
            assert(self@ =~~= with_text(old(self)@, delete_of(old(self)@.text)));
            assert(cmd_views(cmds@) =~~= delete_cmds(old(self)@.text));
        }
        cmds
    }

    /// Type a sequence of characters at the cursor: each newline splits the
    /// line, every other character is inserted and advances the cursor.
    pub fn insert_chars(&mut self, chars: &Vec<char>) -> (r: Vec<ScreenCommand>)
        requires
            old(self)@.text.wf(),
        ensures
            final(self)@ == with_text(old(self)@, insert_text_of(old(self)@.text, chars@)),
            cmd_views(r@) == typing_cmds(chars@),
            final(self)@.text.wf(),
            repositions(
                cmd_views(r@),
                old(self)@.text.row,
                old(self)@.text.col,
                final(self)@.text.row,
                final(self)@.text.col,
            ),
    {
        proof {
            lemma_typing_cmds_reposition(old(self)@.text, chars@);
        }
        let mut cmds: Vec<ScreenCommand> = Vec::new();
        let mut i: usize = 0;
        while i < chars.len()
            invariant
                i <= chars@.len(),
                old(self)@.text.wf(),
                self@ == with_text(
                    old(self)@,
                    insert_text_of(old(self)@.text, chars@.take(i as int)),
                ),
                self@.text.wf(),
                cmd_views(cmds@) == typing_cmds(chars@.take(i as int)),
            decreases chars@.len() - i,
        {
            let c = chars[i];
            proof {
                assert(chars@.take(i as int).push(c) =~= chars@.take(i + 1 as int));
                lemma_insert_text_push(old(self)@.text, chars@.take(i as int), c);
                assert(typing_cmds(chars@.take(i + 1 as int)) =~= typing_cmds(
                    chars@.take(i as int),
                ).push(
                    if c == '\n' {
                        CmdModel::MoveToNextLine
                    } else {
                        CmdModel::MoveRight(1)
                    },
                ));
            }
            let ghost prev = cmds@;
            if c == '\n' {
                let mut more = self.enter();
                let ghost more0 = more@;
                cmds.append(&mut more);
                proof {
                    assert(cmds@ == prev + more0);
                    assert(cmd_views(more0) == seq![CmdModel::MoveToNextLine]);
                    assert(cmd_views(more0).len() == 1);
                    assert(more0.len() == 1);
                    assert(more0[0]@ == cmd_views(more0)[0]);
                    assert(more0[0]@ == CmdModel::MoveToNextLine);
                    assert(cmd_views(cmds@) =~= cmd_views(prev).push(CmdModel::MoveToNextLine));
                }
            } else {
                let row = self.current_row;
                let col = self.current_column;
                self.buffer[row].insert(col, c);
                // The grown line's length is a machine integer, so the
                // column below it can advance without overflow.
                let _new_len = self.buffer[row].len();
                self.current_column = col + 1;
                cmds.push(ScreenCommand::MoveRight(1));
                proof {
                    assert(self@.text.lines =~~= insert_char_of(
                        with_text(
                            old(self)@,
                            insert_text_of(old(self)@.text, chars@.take(i as int)),
                        ).text,
                        c,
                    ).lines);
                    assert(cmds@ == prev.push(ScreenCommand::MoveRight(1)));
                    assert(cmd_views(cmds@) =~= cmd_views(prev).push(CmdModel::MoveRight(1)));
                }
            }
            i = i + 1;
            proof {
                assert(self@ =~~= with_text(
                    old(self)@,
                    insert_text_of(old(self)@.text, chars@.take(i as int)),
                ));
                assert(cmd_views(cmds@) =~~= typing_cmds(chars@.take(i as int)));
            }
        }
        proof {
            assert(chars@.take(chars@.len() as int) =~= chars@);
        }
        cmds
    }

    /// Paste: type whatever text the system clipboard holds; when the
    /// clipboard is unavailable or empty, nothing happens.
    pub fn paste(&mut self) -> (r: Vec<ScreenCommand>)
        requires
            old(self)@.text.wf(),
        ensures
            exists|clip: Seq<char>|
                final(self)@ == with_text(old(self)@, insert_text_of(old(self)@.text, clip))
                    && cmd_views(r@) == typing_cmds(clip),
            final(self)@.mode == old(self)@.mode,
            final(self)@.running == old(self)@.running,
            final(self)@.text.wf(),
    {
        match clipboard::get_text() {
            Some(text) => {
                let r = self.insert_chars(&text);
                proof {
                    assert(self@ == with_text(old(self)@, insert_text_of(old(self)@.text, text@))
                        && cmd_views(r@) == typing_cmds(text@));
                }
                r
            },
            None => {
                let r: Vec<ScreenCommand> = Vec::new();
                proof {
                    let clip = Seq::<char>::empty();
                    assert(typing_cmds(clip) =~= Seq::<CmdModel>::empty());
                    assert(cmd_views(r@) =~= Seq::<CmdModel>::empty());
                    assert(self@ =~~= with_text(old(self)@, insert_text_of(old(self)@.text, clip))
                    );
                    assert(self@ == with_text(old(self)@, insert_text_of(old(self)@.text, clip))
                        && cmd_views(r@) == typing_cmds(clip));
                }
                r
            },
        }
    }

    /// One full repaint: save the cursor, redraw every buffer line from the
    /// top left, draw the status line, and restore the cursor, so that the
    /// physical cursor ends where it started.
    pub fn print_buffer(&self) -> (r: Vec<ScreenCommand>)
        requires
            self@.text.wf(),
        ensures
            cmd_views(r@) == render_cmds(self@),
            keeps_position(cmd_views(r@)),
    {
        proof {
            lemma_render_keeps_cursor(self@);
        }
        let ghost head = seq![CmdModel::SavePosition, CmdModel::MoveTo(0, 0)];
        let mut out: Vec<ScreenCommand> = Vec::new();
        out.push(ScreenCommand::SavePosition);
        out.push(ScreenCommand::MoveTo(0, 0));
        proof {
            assert(self@.text.lines.take(0) =~= Seq::<Seq<char>>::empty());
            assert(cmd_views(out@) =~= head + line_cmds(self@.text.lines.take(0)));
        }
        let mut i: usize = 0;
        while i < self.buffer.len()
            invariant
                self@.text.wf(),
                i <= self.buffer@.len(),
                head == seq![CmdModel::SavePosition, CmdModel::MoveTo(0, 0)],
                cmd_views(out@) == head + line_cmds(self@.text.lines.take(i as int)),
            decreases self.buffer@.len() - i,
        {
            let ghost prev = out@;
            out.push(ScreenCommand::ClearCurrentLine);
            let line = copy_line(&self.buffer[i]);
            out.push(ScreenCommand::Print(line));
            out.push(ScreenCommand::MoveToNextLine);
            i = i + 1;
            proof {
                lemma_line_cmds_push(
                    self@.text.lines.take(i as int - 1),
                    self@.text.lines[i as int - 1],
                );
                assert(self@.text.lines.take(i as int - 1).push(self@.text.lines[i as int - 1])
                    =~= self@.text.lines.take(i as int));
                assert(line_cmds(self@.text.lines.take(i as int)) == line_cmds(
                    self@.text.lines.take(i as int - 1),
                ) + seq![
                    CmdModel::ClearCurrentLine,
                    CmdModel::Print(self@.text.lines[i as int - 1]),
                    CmdModel::MoveToNextLine,
                ]);
                assert(cmd_views(out@) =~= cmd_views(prev) + seq![
                    CmdModel::ClearCurrentLine,
                    CmdModel::Print(self@.text.lines[i as int - 1]),
                    CmdModel::MoveToNextLine,
                ]);
                assert(cmd_views(out@) =~= head + line_cmds(self@.text.lines.take(i as int)));
            }
        }
        proof {
            assert(self@.text.lines.take(self.buffer@.len() as int) =~= self@.text.lines);
        }
        let srow = if self.rows >= 2 {
            (self.rows - 2) as usize
        } else {
            0
        };
        out.push(ScreenCommand::MoveToRow(srow));
        out.push(ScreenCommand::SetStatusColor);
        out.push(ScreenCommand::ClearCurrentLine);
        let left = status_left_chars(self.mode);
        out.push(ScreenCommand::Print(left));
        let right = status_right_chars(self.current_row, self.current_column);
        let rlen = right.len();
        let scol = if (self.columns as usize) >= rlen {
            self.columns as usize - rlen
        } else {
            0
        };
        out.push(ScreenCommand::MoveToColumn(scol));
        out.push(ScreenCommand::Print(right));
        out.push(ScreenCommand::ResetColor);
        out.push(ScreenCommand::RestorePosition);
        proof {
            assert(srow as nat == status_row_of(self@.rows));
            assert(scol as nat == status_col_of(
                self@.columns,
                status_right(self@.text.row, self@.text.col).len(),
            ));
            assert(cmd_views(out@) =~~= render_cmds(self@));
        }
        out
    }

    /// Store a new viewport size and repaint everything on a cleared
    /// screen.
    pub fn resize(&mut self, columns: u16, rows: u16) -> (r: Vec<ScreenCommand>)
        requires
            old(self)@.text.wf(),
        ensures
            final(self)@ == (TermModel { columns, rows, ..old(self)@ }),
            cmd_views(r@) == seq![CmdModel::ClearAll] + render_cmds(
                (TermModel { columns, rows, ..old(self)@ }),
            ),
            final(self)@.text.wf(),
    {
        self.columns = columns;
        self.rows = rows;
        let mut cmds: Vec<ScreenCommand> = Vec::new();
        cmds.push(ScreenCommand::ClearAll);
        let mut rest = self.print_buffer();
        let ghost rest0 = rest@;
        cmds.append(&mut rest);
        proof {
            assert(self@ =~~= (TermModel { columns, rows, ..old(self)@ }));
            assert(cmds@ == seq![ScreenCommand::ClearAll] + rest0);
            assert(cmd_views(cmds@) =~= seq![CmdModel::ClearAll] + cmd_views(rest0));
        }
        cmds
    }

    /// Key dispatch in insert mode: editing keys edit, escape returns to
    /// normal mode, anything else is ignored.
    pub fn insert_mode_key_event(&mut self, keycode: KeyCode) -> (r: Vec<ScreenCommand>)
        requires
            old(self)@.text.wf(),
        ensures
            final(self)@ == insert_key_step(old(self)@, keycode),
            cmd_views(r@) == insert_key_cmds(old(self)@, keycode),
            final(self)@.text.wf(),
    {
        proof {
            lemma_edits_wf(old(self)@.text, '\t');
        }
        match keycode {
            KeyCode::Backspace => self.backspace(),
            KeyCode::Enter => self.enter(),
            KeyCode::Tab => {
                let mut one: Vec<char> = Vec::new();
                one.push('\t');
                let r = self.insert_chars(&one);
                proof {
                    assert(one@ =~= seq!['\t']);
                    lemma_insert_single(old(self)@.text, '\t');
                }
                r
            },
            KeyCode::Delete => self.delete(),
            KeyCode::Char(c) => {
                let mut one: Vec<char> = Vec::new();
                one.push(c);
                let r = self.insert_chars(&one);
                proof {
                    assert(one@ =~= seq![c]);
                    lemma_insert_single(old(self)@.text, c);
                    lemma_edits_wf(old(self)@.text, c);
                }
                r
            },
            KeyCode::Esc => {
                self.mode = Mode::Normal;
                let r: Vec<ScreenCommand> = Vec::new();
                proof {
                    assert(self@ =~~= with_mode(old(self)@, Mode::Normal));
                    assert(cmd_views(r@) =~= Seq::<CmdModel>::empty());
                }
                r
            },
            _ => {
                let r: Vec<ScreenCommand> = Vec::new();
                proof {
                    assert(cmd_views(r@) =~= Seq::<CmdModel>::empty());
                }
                r
            },
        }
    }

    /// Key dispatch in normal mode: `q` asks the session to stop, `i`
    /// enters insert mode, `p` pastes the clipboard text; anything else is
    /// ignored. Outside normal mode nothing happens.
    pub fn normal_mode_key_event(&mut self, keycode: KeyCode) -> (r: Vec<ScreenCommand>)
        requires
            old(self)@.text.wf(),
        ensures
            exists|clip: Seq<char>|
                final(self)@ == normal_key_step(old(self)@, keycode, clip) && cmd_views(r@)
                    == normal_key_cmds(old(self)@, keycode, clip),
            !(old(self)@.mode == Mode::Normal && keycode == KeyCode::Char('p')) ==> final(self)@
                == normal_key_step(old(self)@, keycode, Seq::<char>::empty()) && cmd_views(r@)
                == normal_key_cmds(old(self)@, keycode, Seq::<char>::empty()),
            final(self)@.text.wf(),
    {
        let mut r: Vec<ScreenCommand> = Vec::new();
        if self.mode == Mode::Normal {
            match keycode {
                KeyCode::Char(c) => {
                    if c == 'q' {
                        self.is_running = false;
                        proof {
                            assert(self@ =~~= normal_key_step(
                                old(self)@,
                                keycode,
                                Seq::<char>::empty(),
                            ));
                        }
                    } else if c == 'i' {
                        self.mode = Mode::Insert;
                        proof {
                            assert(self@ =~~= normal_key_step(
                                old(self)@,
                                keycode,
                                Seq::<char>::empty(),
                            ));
                        }
                    } else if c == 'p' {
                        r = self.paste();
                        proof {
                            let clip = choose|cl: Seq<char>|
                                self@ == with_text(
                                    old(self)@,
                                    insert_text_of(old(self)@.text, cl),
                                ) && cmd_views(r@) == typing_cmds(cl);
                            assert(self@ == normal_key_step(old(self)@, keycode, clip)
                                && cmd_views(r@) == normal_key_cmds(old(self)@, keycode, clip));
                        }
                    }
                },
                _ => {},
            }
        }
        proof {
            assert(cmd_views(Seq::<ScreenCommand>::empty()) =~= Seq::<CmdModel>::empty());
        }
        r
    }

    /// Route one input event: directional keys move the cursor in any mode
    /// and take priority; other keys go to the current mode's handler; a
    /// resize stores the new viewport size and repaints.
    pub fn handle_event(&mut self, event: Event) -> (r: Vec<ScreenCommand>)
        requires
            old(self)@.text.wf(),
        ensures
            exists|clip: Seq<char>|
                final(self)@ == event_step(old(self)@, event, clip) && cmd_views(r@) == event_cmds(
                    old(self)@,
                    event,
                    clip,
                ),
            !is_paste(old(self)@, event) ==> final(self)@ == event_step(
                old(self)@,
                event,
                Seq::<char>::empty(),
            ) && cmd_views(r@) == event_cmds(old(self)@, event, Seq::<char>::empty()),
            final(self)@.text.wf(),
    {
        match event {
            Event::Key(code) => {
                match code {
                    KeyCode::Left => {
                        let r = self.move_cursor(Direction::Left);
                        proof {
                            assert(self@ == event_step(old(self)@, event, Seq::<char>::empty()));
                        }
                        r
                    },
                    KeyCode::Right => {
                        let r = self.move_cursor(Direction::Right);
                        proof {
                            assert(self@ == event_step(old(self)@, event, Seq::<char>::empty()));
                        }
                        r
                    },
                    KeyCode::Up => {
                        let r = self.move_cursor(Direction::Up);
                        proof {
                            assert(self@ == event_step(old(self)@, event, Seq::<char>::empty()));
                        }
                        r
                    },
                    KeyCode::Down => {
                        let r = self.move_cursor(Direction::Down);
                        proof {
                            assert(self@ == event_step(old(self)@, event, Seq::<char>::empty()));
                        }
                        r
                    },
                    _ => {
                        match self.mode {
                            Mode::Insert => {
                                let r = self.insert_mode_key_event(code);
                                proof {
                                    assert(self@ == event_step(
                                        old(self)@,
                                        event,
                                        Seq::<char>::empty(),
                                    ));
                                }
                                r
                            },
                            Mode::Normal => {
                                let r = self.normal_mode_key_event(code);
                                proof {
                                    let clip = choose|cl: Seq<char>|
                                        self@ == normal_key_step(old(self)@, code, cl)
                                            && cmd_views(r@) == normal_key_cmds(
                                            old(self)@,
                                            code,
                                            cl,
                                        );
                                    assert(self@ == event_step(old(self)@, event, clip)
                                        && cmd_views(r@) == event_cmds(old(self)@, event, clip));
                                }
                                r
                            },
                        }
                    },
                }
            },
            Event::Resize(columns, rows) => {
                let r = self.resize(columns, rows);
                proof {
                    assert(self@ == event_step(old(self)@, event, Seq::<char>::empty()));
                    assert(cmd_views(r@) == event_cmds(old(self)@, event, Seq::<char>::empty()));
                }
                r
            },
        }
    }
}

} // verus!
