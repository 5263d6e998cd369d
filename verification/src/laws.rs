//! The laws the editing core obeys, each stated over the spec model in
//! `model` and proved here once and for all.

use vstd::prelude::*;

use crate::direction::Direction;
use crate::keyboard::{key_step, KeyCode};
use crate::mode::Mode;
use crate::model::{
    backspace_of, delete_of, dir_step, down_of, insert_char_of, insert_text_of, left_of,
    lemma_edits_wf, lemma_insert_text_push, lemma_insert_text_wf, lemma_moves_wf, right_of,
    split_of, type_char_of, up_of, with_mode, with_text, TermModel, TextModel,
};
use crate::render::{line_cmds, render_cmds, status_cmds};
use crate::screen::{
    apply_cmd, apply_cmds, backspace_cmds, delete_cmds, dir_cmds, keeps_position,
    lemma_apply_cmds_concat, lemma_no_save_keeps_saved, repositions, typing_cmds, CmdModel,
    ScreenState,
};

verus! {

/// Applying one command.
proof fn lemma_apply_one(s: ScreenState, c: CmdModel)
    ensures
        apply_cmds(s, seq![c]) == apply_cmd(s, c),
{
    assert(seq![c][0] == c);
    assert(seq![c].skip(1) =~= Seq::<CmdModel>::empty());
    assert(apply_cmds(apply_cmd(s, c), Seq::<CmdModel>::empty()) == apply_cmd(s, c));
}

/// Applying two commands in a row.
proof fn lemma_apply_two(s: ScreenState, c0: CmdModel, c1: CmdModel)
    ensures
        apply_cmds(s, seq![c0, c1]) == apply_cmd(apply_cmd(s, c0), c1),
{
    assert(seq![c0, c1][0] == c0);
    assert(seq![c0, c1].skip(1) =~= seq![c1]);
    lemma_apply_one(apply_cmd(s, c0), c1);
}

/// Applying three commands in a row.
proof fn lemma_apply_three(s: ScreenState, c0: CmdModel, c1: CmdModel, c2: CmdModel)
    ensures
        apply_cmds(s, seq![c0, c1, c2]) == apply_cmd(apply_cmd(apply_cmd(s, c0), c1), c2),
{
    assert(seq![c0, c1, c2][0] == c0);
    assert(seq![c0, c1, c2].skip(1) =~= seq![c1, c2]);
    lemma_apply_two(apply_cmd(s, c0), c1, c2);
}

/// Applying four commands in a row.
proof fn lemma_apply_four(s: ScreenState, c0: CmdModel, c1: CmdModel, c2: CmdModel, c3: CmdModel)
    ensures
        apply_cmds(s, seq![c0, c1, c2, c3]) == apply_cmd(
            apply_cmd(apply_cmd(apply_cmd(s, c0), c1), c2),
            c3,
        ),
{
    assert(seq![c0, c1, c2, c3][0] == c0);
    assert(seq![c0, c1, c2, c3].skip(1) =~= seq![c1, c2, c3]);
    lemma_apply_three(apply_cmd(s, c0), c1, c2, c3);
}

/// `n` right moves in a row.
pub open spec fn rights(t: TextModel, n: nat) -> TextModel
    decreases n,
{
    if n == 0 {
        t
    } else {
        right_of(rights(t, (n - 1) as nat))
    }
}

/// `n` left moves in a row.
pub open spec fn lefts(t: TextModel, n: nat) -> TextModel
    decreases n,
{
    if n == 0 {
        t
    } else {
        left_of(lefts(t, (n - 1) as nat))
    }
}

/// `n` backspaces in a row.
pub open spec fn backspaces(t: TextModel, n: nat) -> TextModel
    decreases n,
{
    if n == 0 {
        t
    } else {
        backspaces(backspace_of(t), (n - 1) as nat)
    }
}

/// However many right moves are made, the buffer is unchanged and the
/// cursor stays within it: the row never passes the last line and the
/// column never passes the line end. At the very end of the buffer a right
/// move changes nothing, so moving right there is idempotent.
pub proof fn lemma_rights_bounded(t: TextModel, n: nat)
    requires
        t.wf(),
    ensures
        rights(t, n).wf(),
        rights(t, n).lines == t.lines,
        rights(t, n).row < t.lines.len(),
        rights(t, n).col <= t.lines[rights(t, n).row as int].len(),
        t.at_end() ==> rights(t, n) == t,
    decreases n,
{
    if n > 0 {
        lemma_rights_bounded(t, (n - 1) as nat);
        lemma_moves_wf(rights(t, (n - 1) as nat));
    }
}

/// However many left moves are made, the buffer is unchanged and the
/// cursor stays well-formed; its row and column are naturals, so it can
/// never go below (0, 0), and at (0, 0) a left move changes nothing, so
/// moving left there is idempotent.
pub proof fn lemma_lefts_bounded(t: TextModel, n: nat)
    requires
        t.wf(),
    ensures
        lefts(t, n).wf(),
        lefts(t, n).lines == t.lines,
        t.at_start() ==> lefts(t, n) == t,
    decreases n,
{
    if n > 0 {
        lemma_lefts_bounded(t, (n - 1) as nat);
        lemma_moves_wf(lefts(t, (n - 1) as nat));
    }
}

/// One backspace right after inserting one ordinary character undoes it
/// exactly.
pub proof fn lemma_backspace_undoes_insert(t: TextModel, c: char)
    requires
        t.wf(),
        c != '\n',
    ensures
        backspace_of(insert_char_of(t, c)) == t,
{
    let u = insert_char_of(t, c);
    assert(u.cur_line() == t.cur_line().insert(t.col as int, c));
    assert(u.cur_line().remove(t.col as int) =~= t.cur_line());
    assert(backspace_of(u).lines =~~= t.lines);
    assert(backspace_of(u) =~~= t);
}

/// Round trip: typing a sequence that holds no newline and then
/// backspacing the same count returns buffer and cursor exactly to their
/// pre-insert state.
pub proof fn lemma_insert_backspace_round_trip(t: TextModel, s: Seq<char>)
    requires
        t.wf(),
        forall|i: int| 0 <= i < s.len() ==> s[i] != '\n',
    ensures
        backspaces(insert_text_of(t, s), s.len()) == t,
    decreases s.len(),
{
    if s.len() > 0 {
        let s0 = s.take(s.len() - 1);
        let c = s.last();
        assert(s0.push(c) =~= s);
        assert(c != '\n');
        lemma_insert_text_push(t, s0, c);
        lemma_insert_text_wf(t, s0);
        let w = insert_text_of(t, s0);
        assert(insert_text_of(t, s) == insert_char_of(w, c));
        lemma_backspace_undoes_insert(w, c);
        assert(backspaces(insert_text_of(t, s), s.len()) == backspaces(w, s0.len()));
        lemma_insert_backspace_round_trip(t, s0);
    }
}

/// Join is the exact inverse of split when nothing is edited in between:
/// splitting a line and backspacing at column 0 of the new line restores
/// the original line and the original cursor column.
pub proof fn lemma_split_backspace(t: TextModel)
    requires
        t.wf(),
    ensures
        backspace_of(split_of(t)) == t,
{
    let u = split_of(t);
    let l = t.cur_line();
    assert(u.lines[u.row - 1] == l.take(t.col as int));
    assert(u.cur_line() == l.skip(t.col as int));
    assert(u.lines[u.row - 1] + u.cur_line() =~= l);
    assert(backspace_of(u).lines =~~= t.lines);
    assert(backspace_of(u) =~~= t);
}

/// Moving down onto a strictly shorter line clamps the column to that
/// line's length, and moving back up does not restore the old column: the
/// pre-clamp column is forgotten.
pub proof fn lemma_down_up_forgets_column(t: TextModel)
    requires
        t.wf(),
        t.row + 1 < t.lines.len(),
        t.lines[t.row as int + 1].len() < t.col,
    ensures
        down_of(t).col == t.lines[t.row as int + 1].len(),
        up_of(down_of(t)) == (TextModel { col: t.lines[t.row as int + 1].len(), ..t }),
        up_of(down_of(t)).col != t.col,
{
    assert(up_of(down_of(t)) =~~= (TextModel { col: t.lines[t.row as int + 1].len(), ..t }));
}

/// The mode transitions: `i` in normal mode enters insert mode; escape in
/// insert mode returns to normal mode; `q` stops the session only in
/// normal mode, while in insert mode it is inserted as a literal character
/// and the session keeps running.
pub proof fn lemma_mode_transitions(m: TermModel, clip: Seq<char>)
    ensures
        m.mode == Mode::Normal ==> key_step(m, KeyCode::Char('i'), clip) == with_mode(
            m,
            Mode::Insert,
        ),
        m.mode == Mode::Insert ==> key_step(m, KeyCode::Esc, clip) == with_mode(m, Mode::Normal),
        m.mode == Mode::Normal ==> key_step(m, KeyCode::Char('q'), clip) == (TermModel {
            running: false,
            ..m
        }),
        m.mode == Mode::Insert ==> key_step(m, KeyCode::Char('q'), clip) == with_text(
            m,
            insert_char_of(m.text, 'q'),
        ) && key_step(m, KeyCode::Char('q'), clip).running == m.running,
{
}

/// Logical and physical cursor never diverge on a move: the commands of
/// each cursor move carry the physical cursor exactly from the old logical
/// position to the new one, whatever position was saved before.
pub proof fn lemma_move_cmds_reposition(t: TextModel, d: Direction)
    requires
        t.wf(),
    ensures
        repositions(dir_cmds(t, d), t.row, t.col, dir_step(t, d).row, dir_step(t, d).col),
{
    let cs = dir_cmds(t, d);
    let u = dir_step(t, d);
    assert forall|s: ScreenState| s.row == t.row && s.col == t.col implies (#[trigger] apply_cmds(
        s,
        cs,
    )).row == u.row && apply_cmds(s, cs).col == u.col by {
        if cs.len() == 0 {
            assert(apply_cmds(s, cs) == s);
        } else if cs.len() == 1 {
            lemma_apply_one(s, cs[0]);
            assert(apply_cmds(s, seq![cs[0]]) == apply_cmd(s, cs[0]));
            assert(cs =~= seq![cs[0]]);
        } else {
            lemma_apply_two(s, cs[0], cs[1]);
            assert(cs =~= seq![cs[0], cs[1]]);
        }
    }
}

/// Logical and physical cursor never diverge while typing: the commands of
/// typing a character sequence carry the physical cursor exactly onto the
/// new logical position.
pub proof fn lemma_typing_cmds_reposition(t: TextModel, s: Seq<char>)
    requires
        t.wf(),
    ensures
        repositions(
            typing_cmds(s),
            t.row,
            t.col,
            insert_text_of(t, s).row,
            insert_text_of(t, s).col,
        ),
    decreases s.len(),
{
    if s.len() == 0 {
        assert forall|st: ScreenState| st.row == t.row && st.col == t.col implies (
        #[trigger] apply_cmds(st, typing_cmds(s))).row == insert_text_of(t, s).row && apply_cmds(
            st,
            typing_cmds(s),
        ).col == insert_text_of(t, s).col by {
            assert(typing_cmds(s) =~= Seq::<CmdModel>::empty());
            assert(apply_cmds(st, typing_cmds(s)) == st);
        }
    } else {
        let c = s[0];
        let u = type_char_of(t, c);
        let c0 = if c == '\n' {
            CmdModel::MoveToNextLine
        } else {
            CmdModel::MoveRight(1)
        };
        lemma_edits_wf(t, c);
        lemma_typing_cmds_reposition(u, s.skip(1));
        assert(typing_cmds(s) =~= seq![c0] + typing_cmds(s.skip(1)));
        assert(insert_text_of(t, s) == insert_text_of(u, s.skip(1)));
        assert forall|st: ScreenState| st.row == t.row && st.col == t.col implies (
        #[trigger] apply_cmds(st, typing_cmds(s))).row == insert_text_of(t, s).row && apply_cmds(
            st,
            typing_cmds(s),
        ).col == insert_text_of(t, s).col by {
            lemma_apply_cmds_concat(st, seq![c0], typing_cmds(s.skip(1)));
            lemma_apply_one(st, c0);
            let st1 = apply_cmd(st, c0);
            assert(st1.row == u.row && st1.col == u.col);
            assert(apply_cmds(st1, typing_cmds(s.skip(1))).row == insert_text_of(
                u,
                s.skip(1),
            ).row && apply_cmds(st1, typing_cmds(s.skip(1))).col == insert_text_of(
                u,
                s.skip(1),
            ).col);
        }
    }
}

/// Logical and physical cursor never diverge on a backspace: its commands
/// carry the physical cursor exactly onto the new logical position.
pub proof fn lemma_backspace_cmds_reposition(t: TextModel)
    requires
        t.wf(),
    ensures
        repositions(backspace_cmds(t), t.row, t.col, backspace_of(t).row, backspace_of(t).col),
{
    let cs = backspace_cmds(t);
    let u = backspace_of(t);
    assert forall|s: ScreenState| s.row == t.row && s.col == t.col implies (#[trigger] apply_cmds(
        s,
        cs,
    )).row == u.row && apply_cmds(s, cs).col == u.col by {
        if t.col > 0 {
            lemma_apply_one(s, cs[0]);
            assert(cs =~= seq![cs[0]]);
        } else if t.row > 0 {
            lemma_apply_four(s, cs[0], cs[1], cs[2], cs[3]);
            assert(cs =~= seq![cs[0], cs[1], cs[2], cs[3]]);
        } else {
            assert(apply_cmds(s, cs) == s);
        }
    }
}

/// A forward delete leaves the physical cursor where it found it, just as
/// it leaves the logical cursor in place.
pub proof fn lemma_delete_cmds_keep_position(t: TextModel)
    requires
        t.wf(),
    ensures
        keeps_position(delete_cmds(t)),
{
    let cs = delete_cmds(t);
    assert forall|s: ScreenState| (#[trigger] apply_cmds(s, cs)).row == s.row && apply_cmds(
        s,
        cs,
    ).col == s.col by {
        if cs.len() == 0 {
            assert(apply_cmds(s, cs) == s);
        } else {
            lemma_apply_one(s, cs[0]);
            assert(cs =~= seq![cs[0]]);
        }
    }
}

/// No command that draws the buffer lines saves the cursor position.
proof fn lemma_line_cmds_no_save(lines: Seq<Seq<char>>)
    ensures
        forall|i: int|
            0 <= i < line_cmds(lines).len() ==> #[trigger] line_cmds(lines)[i]
                != CmdModel::SavePosition,
    decreases lines.len(),
{
    if lines.len() > 0 {
        lemma_line_cmds_no_save(lines.skip(1));
        assert forall|i: int| 0 <= i < line_cmds(lines).len() implies #[trigger] line_cmds(
            lines,
        )[i] != CmdModel::SavePosition by {
            if i >= 3 {
                assert(line_cmds(lines)[i] == line_cmds(lines.skip(1))[i - 3]);
            }
        }
    }
}

/// A full repaint leaves the physical cursor where it found it: the cursor
/// is saved first and restored last, and nothing in between saves again.
pub proof fn lemma_render_keeps_cursor(m: TermModel)
    ensures
        keeps_position(render_cmds(m)),
{
    let head = seq![CmdModel::SavePosition, CmdModel::MoveTo(0, 0)];
    let mid = line_cmds(m.text.lines) + status_cmds(m);
    let tail = seq![CmdModel::RestorePosition];
    assert(render_cmds(m) =~= (head + mid) + tail);
    assert forall|s: ScreenState| (#[trigger] apply_cmds(s, render_cmds(m))).row == s.row
        && apply_cmds(s, render_cmds(m)).col == s.col by {
        lemma_apply_cmds_concat(s, head + mid, tail);
        lemma_apply_cmds_concat(s, head, mid);
        lemma_apply_two(s, CmdModel::SavePosition, CmdModel::MoveTo(0, 0));
        assert(apply_cmds(s, head) == apply_cmd(apply_cmd(s, CmdModel::SavePosition), CmdModel::MoveTo(0, 0)));
        let s2 = apply_cmds(s, head);
        assert(s2.saved_row == s.row && s2.saved_col == s.col);
        lemma_line_cmds_no_save(m.text.lines);
        assert forall|i: int| 0 <= i < mid.len() implies mid[i] != CmdModel::SavePosition by {
            if i >= line_cmds(m.text.lines).len() {
                assert(mid[i] == status_cmds(m)[i - line_cmds(m.text.lines).len()]);
            }
        }
        lemma_no_save_keeps_saved(s2, mid);
        let s3 = apply_cmds(s2, mid);
        assert(s3.saved_row == s.row && s3.saved_col == s.col);
        lemma_apply_one(s3, CmdModel::RestorePosition);
        assert(apply_cmds(s3, tail) == apply_cmd(s3, CmdModel::RestorePosition));
        assert(apply_cmds(s, render_cmds(m)) == apply_cmds(s, (head + mid) + tail));
    }
}

} // verus!
