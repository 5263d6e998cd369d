//! Input events and the spec-level model of key dispatch.
//!
//! The host decodes terminal input into an [`Event`]; the editor maps it,
//! by mode, onto the buffer and cursor operations. `event_step` below is the
//! whole state machine as one spec function; the executable dispatch in
//! `terminal` is proved to follow it.

use vstd::prelude::*;

use crate::direction::Direction;
use crate::mode::Mode;
use crate::model::{
    backspace_of, delete_of, dir_step, insert_text_of, split_of, type_char_of, with_mode,
    with_text, TermModel,
};
use crate::render::render_cmds;
use crate::screen::{backspace_cmds, delete_cmds, dir_cmds, typing_cmds, CmdModel};

verus! {

/// A decoded key, at the granularity the editor cares about: every other
/// key the terminal can deliver is `Other`, which is ignored in both modes.
#[derive(Debug, Clone, Copy, PartialEq, Eq, Structural)]
pub enum KeyCode {
    Left,
    Right,
    Up,
    Down,
    Char(char),
    Backspace,
    Enter,
    Tab,
    Delete,
    Esc,
    Other,
}

/// One input event: a key press, or a change of the viewport size.
#[derive(Debug, Clone, Copy, PartialEq, Eq, Structural)]
pub enum Event {
    Key(KeyCode),
    Resize(u16, u16),
}

/// Key dispatch in insert mode: editing keys edit, escape returns to normal
/// mode, anything else is ignored. Directional keys are handled before mode
/// dispatch, so they are ignored here as well.
pub open spec fn insert_key_step(m: TermModel, code: KeyCode) -> TermModel {
    match code {
        KeyCode::Backspace => with_text(m, backspace_of(m.text)),
        KeyCode::Enter => with_text(m, split_of(m.text)),
        KeyCode::Tab => with_text(m, type_char_of(m.text, '\t')),
        KeyCode::Delete => with_text(m, delete_of(m.text)),
        KeyCode::Char(c) => with_text(m, type_char_of(m.text, c)),
        KeyCode::Esc => with_mode(m, Mode::Normal),
        _ => m,
    }
}

/// The commands insert-mode dispatch issues.
pub open spec fn insert_key_cmds(m: TermModel, code: KeyCode) -> Seq<CmdModel> {
    match code {
        KeyCode::Backspace => backspace_cmds(m.text),
        KeyCode::Enter => seq![CmdModel::MoveToNextLine],
        KeyCode::Tab => typing_cmds(seq!['\t']),
        KeyCode::Delete => delete_cmds(m.text),
        KeyCode::Char(c) => typing_cmds(seq![c]),
        _ => Seq::<CmdModel>::empty(),
    }
}

/// Key dispatch in normal mode: `q` asks the session to stop, `i` enters
/// insert mode, `p` types whatever text the clipboard held (`clip`), and
/// anything else is ignored. Outside normal mode nothing happens.
pub open spec fn normal_key_step(m: TermModel, code: KeyCode, clip: Seq<char>) -> TermModel {
    if m.mode == Mode::Normal {
        match code {
            KeyCode::Char(c) => if c == 'q' {
                TermModel { running: false, ..m }
            } else if c == 'i' {
                with_mode(m, Mode::Insert)
            } else if c == 'p' {
                with_text(m, insert_text_of(m.text, clip))
            } else {
                m
            },
            _ => m,
        }
    } else {
        m
    }
}

/// The commands normal-mode dispatch issues: only a paste moves anything.
pub open spec fn normal_key_cmds(m: TermModel, code: KeyCode, clip: Seq<char>) -> Seq<CmdModel> {
    if m.mode == Mode::Normal && code == KeyCode::Char('p') {
        typing_cmds(clip)
    } else {
        Seq::<CmdModel>::empty()
    }
}

/// Whether the key press is a directional move, which works in any mode and
/// takes priority over mode dispatch.
pub open spec fn arrow_of(code: KeyCode) -> Option<Direction> {
    match code {
        KeyCode::Left => Some(Direction::Left),
        KeyCode::Right => Some(Direction::Right),
        KeyCode::Up => Some(Direction::Up),
        KeyCode::Down => Some(Direction::Down),
        _ => None,
    }
}

/// One key press: arrows move the cursor in any mode; everything else goes
/// to the handler of the current mode.
pub open spec fn key_step(m: TermModel, code: KeyCode, clip: Seq<char>) -> TermModel {
    match arrow_of(code) {
        Some(d) => with_text(m, dir_step(m.text, d)),
        None => match m.mode {
            Mode::Insert => insert_key_step(m, code),
            Mode::Normal => normal_key_step(m, code, clip),
        },
    }
}

/// The commands one key press issues.
pub open spec fn key_cmds(m: TermModel, code: KeyCode, clip: Seq<char>) -> Seq<CmdModel> {
    match arrow_of(code) {
        Some(d) => dir_cmds(m.text, d),
        None => match m.mode {
            Mode::Insert => insert_key_cmds(m, code),
            Mode::Normal => normal_key_cmds(m, code, clip),
        },
    }
}

/// One event: a key press is dispatched; a resize stores the new viewport
/// size. `clip` is the text the clipboard held, read only on a paste.
pub open spec fn event_step(m: TermModel, e: Event, clip: Seq<char>) -> TermModel {
    match e {
        Event::Key(code) => key_step(m, code, clip),
        Event::Resize(columns, rows) => TermModel { columns, rows, ..m },
    }
}

/// The commands one event issues; a resize clears the screen and repaints
/// everything.
pub open spec fn event_cmds(m: TermModel, e: Event, clip: Seq<char>) -> Seq<CmdModel> {
    match e {
        Event::Key(code) => key_cmds(m, code, clip),
        Event::Resize(columns, rows) => seq![CmdModel::ClearAll] + render_cmds(
            (TermModel { columns, rows, ..m }),
        ),
    }
}

/// Whether the event is a paste, the one dispatch whose outcome depends on
/// the clipboard.
pub open spec fn is_paste(m: TermModel, e: Event) -> bool {
    m.mode == Mode::Normal && e == Event::Key(KeyCode::Char('p'))
}

} // verus!
