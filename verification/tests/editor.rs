use edit_core::direction::Direction;
use edit_core::keyboard::{Event, KeyCode};
use edit_core::mode::Mode;
use edit_core::screen::ScreenCommand;
use edit_core::terminal::Terminal;

fn line_string(t: &Terminal, i: usize) -> String {
    t.line(i).iter().collect()
}

fn press(t: &mut Terminal, code: KeyCode) -> Vec<ScreenCommand> {
    t.handle_event(Event::Key(code))
}

fn type_str(t: &mut Terminal, s: &str) {
    for c in s.chars() {
        press(t, KeyCode::Char(c));
    }
}

/// Buffer ["ab", "cd"], cursor at (0, 2), normal mode.
fn two_lines() -> Terminal {
    let mut t = Terminal::new(80, 24);
    press(&mut t, KeyCode::Char('i'));
    type_str(&mut t, "ab");
    press(&mut t, KeyCode::Enter);
    type_str(&mut t, "cd");
    press(&mut t, KeyCode::Esc);
    press(&mut t, KeyCode::Up);
    t
}

#[test]
fn starts_with_one_empty_line() {
    let t = Terminal::new(80, 24);
    assert!(t.is_running());
    assert_eq!(t.mode(), Mode::Normal);
    assert_eq!(t.line_count(), 1);
    assert_eq!(line_string(&t, 0), "");
    assert_eq!((t.current_row(), t.current_column()), (0, 0));
}

#[test]
fn insert_then_enter_then_backspace() {
    // Buffer [""], cursor (0,0); i, a, b, c; Enter; Backspace.
    let mut t = Terminal::new(80, 24);
    press(&mut t, KeyCode::Char('i'));
    assert_eq!(t.mode(), Mode::Insert);
    type_str(&mut t, "abc");
    assert_eq!(t.line_count(), 1);
    assert_eq!(line_string(&t, 0), "abc");
    assert_eq!((t.current_row(), t.current_column()), (0, 3));
    press(&mut t, KeyCode::Enter);
    assert_eq!(t.line_count(), 2);
    assert_eq!(line_string(&t, 0), "abc");
    assert_eq!(line_string(&t, 1), "");
    assert_eq!((t.current_row(), t.current_column()), (1, 0));
    press(&mut t, KeyCode::Backspace);
    assert_eq!(t.line_count(), 1);
    assert_eq!(line_string(&t, 0), "abc");
    assert_eq!((t.current_row(), t.current_column()), (0, 3));
}

#[test]
fn right_wraps_to_next_line_start() {
    let mut t = two_lines();
    assert_eq!((t.current_row(), t.current_column()), (0, 2));
    let cmds = press(&mut t, KeyCode::Right);
    assert_eq!((t.current_row(), t.current_column()), (1, 0));
    assert_eq!(t.line_count(), 2);
    assert_eq!(line_string(&t, 0), "ab");
    assert_eq!(line_string(&t, 1), "cd");
    assert_eq!(cmds.len(), 1);
    assert!(matches!(cmds[0], ScreenCommand::MoveToNextLine));
}

#[test]
fn quit_in_normal_mode_stops_session() {
    // Buffer ["abc"], cursor (0,3), normal mode; q stops, buffer unchanged.
    let mut t = Terminal::new(80, 24);
    press(&mut t, KeyCode::Char('i'));
    type_str(&mut t, "abc");
    press(&mut t, KeyCode::Esc);
    assert_eq!((t.current_row(), t.current_column()), (0, 3));
    press(&mut t, KeyCode::Char('q'));
    assert!(!t.is_running());
    assert_eq!(t.line_count(), 1);
    assert_eq!(line_string(&t, 0), "abc");
}

#[test]
fn right_moves_stop_at_buffer_end() {
    let mut t = two_lines();
    for _ in 0..20 {
        press(&mut t, KeyCode::Right);
    }
    // Clamped at the end of the last line, and idempotent there.
    assert_eq!((t.current_row(), t.current_column()), (1, 2));
    let cmds = press(&mut t, KeyCode::Right);
    assert_eq!((t.current_row(), t.current_column()), (1, 2));
    assert!(cmds.is_empty());
}

#[test]
fn left_moves_stop_at_buffer_start() {
    let mut t = two_lines();
    for _ in 0..20 {
        press(&mut t, KeyCode::Left);
    }
    assert_eq!((t.current_row(), t.current_column()), (0, 0));
    let cmds = press(&mut t, KeyCode::Left);
    assert_eq!((t.current_row(), t.current_column()), (0, 0));
    assert!(cmds.is_empty());
}

#[test]
fn left_wraps_to_previous_line_end() {
    let mut t = two_lines();
    press(&mut t, KeyCode::Down); // (1, 2)
    press(&mut t, KeyCode::Left); // (1, 1)
    press(&mut t, KeyCode::Left); // (1, 0)
    let cmds = press(&mut t, KeyCode::Left); // wraps to (0, 2)
    assert_eq!((t.current_row(), t.current_column()), (0, 2));
    assert_eq!(cmds.len(), 2);
    assert!(matches!(cmds[0], ScreenCommand::MoveToColumn(2)));
    assert!(matches!(cmds[1], ScreenCommand::MoveToRow(0)));
}

#[test]
fn insert_then_backspace_round_trip() {
    let mut t = two_lines();
    press(&mut t, KeyCode::Char('i'));
    type_str(&mut t, "xyz");
    assert_eq!(line_string(&t, 0), "abxyz");
    press(&mut t, KeyCode::Backspace);
    press(&mut t, KeyCode::Backspace);
    press(&mut t, KeyCode::Backspace);
    assert_eq!(t.line_count(), 2);
    assert_eq!(line_string(&t, 0), "ab");
    assert_eq!(line_string(&t, 1), "cd");
    assert_eq!((t.current_row(), t.current_column()), (0, 2));
}

#[test]
fn split_then_backspace_restores_line() {
    let mut t = Terminal::new(80, 24);
    press(&mut t, KeyCode::Char('i'));
    type_str(&mut t, "abcd");
    press(&mut t, KeyCode::Left);
    press(&mut t, KeyCode::Left); // cursor (0, 2), mid-line
    press(&mut t, KeyCode::Enter);
    assert_eq!(t.line_count(), 2);
    assert_eq!(line_string(&t, 0), "ab");
    assert_eq!(line_string(&t, 1), "cd");
    assert_eq!((t.current_row(), t.current_column()), (1, 0));
    press(&mut t, KeyCode::Backspace);
    assert_eq!(t.line_count(), 1);
    assert_eq!(line_string(&t, 0), "abcd");
    assert_eq!((t.current_row(), t.current_column()), (0, 2));
}

#[test]
fn down_clamps_column_and_up_does_not_restore_it() {
    // Lines "abcd" / "x": down from (0,4) clamps to (1,1); up keeps column 1.
    let mut t = Terminal::new(80, 24);
    press(&mut t, KeyCode::Char('i'));
    type_str(&mut t, "abcd");
    press(&mut t, KeyCode::Enter);
    type_str(&mut t, "x");
    press(&mut t, KeyCode::Up); // (0, 1)
    for _ in 0..3 {
        press(&mut t, KeyCode::Right);
    }
    assert_eq!((t.current_row(), t.current_column()), (0, 4));
    let cmds = press(&mut t, KeyCode::Down);
    assert_eq!((t.current_row(), t.current_column()), (1, 1));
    assert_eq!(cmds.len(), 2);
    assert!(matches!(cmds[0], ScreenCommand::MoveToColumn(1)));
    assert!(matches!(cmds[1], ScreenCommand::MoveDown(1)));
    press(&mut t, KeyCode::Up);
    assert_eq!((t.current_row(), t.current_column()), (0, 1));
}

#[test]
fn mode_transitions() {
    let mut t = Terminal::new(80, 24);
    assert_eq!(t.mode(), Mode::Normal);
    press(&mut t, KeyCode::Char('i'));
    assert_eq!(t.mode(), Mode::Insert);
    // q in insert mode is a literal character and the session keeps running.
    press(&mut t, KeyCode::Char('q'));
    assert!(t.is_running());
    assert_eq!(line_string(&t, 0), "q");
    press(&mut t, KeyCode::Esc);
    assert_eq!(t.mode(), Mode::Normal);
    // i typed in insert mode is literal too.
    press(&mut t, KeyCode::Char('i'));
    press(&mut t, KeyCode::Char('i'));
    assert_eq!(line_string(&t, 0), "qi");
    assert_eq!(t.mode(), Mode::Insert);
}

#[test]
fn tab_inserts_literal_tab() {
    let mut t = Terminal::new(80, 24);
    press(&mut t, KeyCode::Char('i'));
    press(&mut t, KeyCode::Tab);
    assert_eq!(t.line(0).as_slice(), ['\t']);
    assert_eq!((t.current_row(), t.current_column()), (0, 1));
}

#[test]
fn other_keys_are_ignored_in_both_modes() {
    let mut t = two_lines();
    let cmds = press(&mut t, KeyCode::Other);
    assert!(cmds.is_empty());
    press(&mut t, KeyCode::Char('i'));
    let cmds = press(&mut t, KeyCode::Other);
    assert!(cmds.is_empty());
    assert_eq!(line_string(&t, 0), "ab");
    assert_eq!(line_string(&t, 1), "cd");
}

#[test]
fn delete_removes_character_at_cursor() {
    let mut t = two_lines(); // cursor (0, 2) of "ab"
    press(&mut t, KeyCode::Left); // (0, 1)
    press(&mut t, KeyCode::Char('i'));
    press(&mut t, KeyCode::Delete);
    assert_eq!(line_string(&t, 0), "a");
    assert_eq!((t.current_row(), t.current_column()), (0, 1));
}

#[test]
fn delete_at_line_end_joins_next_line() {
    let mut t = two_lines(); // cursor (0, 2), end of "ab"
    press(&mut t, KeyCode::Char('i'));
    let cmds = press(&mut t, KeyCode::Delete);
    assert_eq!(t.line_count(), 1);
    assert_eq!(line_string(&t, 0), "abcd");
    assert_eq!((t.current_row(), t.current_column()), (0, 2));
    assert_eq!(cmds.len(), 1);
    assert!(matches!(cmds[0], ScreenCommand::ClearFromCursorDown));
}

#[test]
fn delete_at_buffer_end_is_a_no_op() {
    let mut t = Terminal::new(80, 24);
    press(&mut t, KeyCode::Char('i'));
    type_str(&mut t, "ab");
    let cmds = press(&mut t, KeyCode::Delete);
    assert!(cmds.is_empty());
    assert_eq!(line_string(&t, 0), "ab");
}

#[test]
fn backspace_join_issues_redraw_commands() {
    let mut t = two_lines();
    press(&mut t, KeyCode::Down); // (1, 2)
    press(&mut t, KeyCode::Left);
    press(&mut t, KeyCode::Left); // (1, 0)
    press(&mut t, KeyCode::Char('i'));
    let cmds = press(&mut t, KeyCode::Backspace);
    assert_eq!(t.line_count(), 1);
    assert_eq!(line_string(&t, 0), "abcd");
    assert_eq!((t.current_row(), t.current_column()), (0, 2));
    assert_eq!(cmds.len(), 4);
    assert!(matches!(cmds[0], ScreenCommand::ClearFromCursorDown));
    assert!(matches!(cmds[1], ScreenCommand::MoveToColumn(4)));
    assert!(matches!(cmds[2], ScreenCommand::MoveToRow(0)));
    assert!(matches!(cmds[3], ScreenCommand::MoveToColumn(2)));
}

#[test]
fn insert_chars_handles_newlines_in_pasted_text() {
    let mut t = Terminal::new(80, 24);
    let cmds = t.insert_chars(&vec!['a', '\n', 'b']);
    assert_eq!(t.line_count(), 2);
    assert_eq!(line_string(&t, 0), "a");
    assert_eq!(line_string(&t, 1), "b");
    assert_eq!((t.current_row(), t.current_column()), (1, 1));
    assert_eq!(cmds.len(), 3);
    assert!(matches!(cmds[0], ScreenCommand::MoveRight(1)));
    assert!(matches!(cmds[1], ScreenCommand::MoveToNextLine));
    assert!(matches!(cmds[2], ScreenCommand::MoveRight(1)));
}

#[test]
fn move_cursor_mid_line_issues_single_steps() {
    let mut t = two_lines();
    press(&mut t, KeyCode::Left); // (0, 1)
    let cmds = t.move_cursor(Direction::Right);
    assert_eq!(cmds.len(), 1);
    assert!(matches!(cmds[0], ScreenCommand::MoveRight(1)));
    let cmds = t.move_cursor(Direction::Left);
    assert_eq!(cmds.len(), 1);
    assert!(matches!(cmds[0], ScreenCommand::MoveLeft(1)));
}

#[test]
fn print_buffer_paints_lines_and_status() {
    let t = Terminal::new(80, 24);
    let cmds = t.print_buffer();
    assert_eq!(cmds.len(), 13);
    assert!(matches!(cmds[0], ScreenCommand::SavePosition));
    assert!(matches!(cmds[1], ScreenCommand::MoveTo(0, 0)));
    assert!(matches!(cmds[2], ScreenCommand::ClearCurrentLine));
    match &cmds[3] {
        ScreenCommand::Print(text) => assert!(text.is_empty()),
        other => panic!("expected a print command, got {:?}", other),
    }
    assert!(matches!(cmds[4], ScreenCommand::MoveToNextLine));
    assert!(matches!(cmds[5], ScreenCommand::MoveToRow(22)));
    assert!(matches!(cmds[6], ScreenCommand::SetStatusColor));
    assert!(matches!(cmds[7], ScreenCommand::ClearCurrentLine));
    match &cmds[8] {
        ScreenCommand::Print(text) => {
            assert_eq!(text.iter().collect::<String>(), " NORMAL ");
        },
        other => panic!("expected a print command, got {:?}", other),
    }
    // The right status text " 0:0 " is five characters wide.
    assert!(matches!(cmds[9], ScreenCommand::MoveToColumn(75)));
    match &cmds[10] {
        ScreenCommand::Print(text) => {
            assert_eq!(text.iter().collect::<String>(), " 0:0 ");
        },
        other => panic!("expected a print command, got {:?}", other),
    }
    assert!(matches!(cmds[11], ScreenCommand::ResetColor));
    assert!(matches!(cmds[12], ScreenCommand::RestorePosition));
}

#[test]
fn status_shows_cursor_position_and_insert_label() {
    let mut t = two_lines();
    press(&mut t, KeyCode::Down); // (1, 2)
    press(&mut t, KeyCode::Char('i'));
    let cmds = t.print_buffer();
    let prints: Vec<String> = cmds
        .iter()
        .filter_map(|c| match c {
            ScreenCommand::Print(text) => Some(text.iter().collect()),
            _ => None,
        })
        .collect();
    assert_eq!(prints, vec!["ab", "cd", " INSERT ", " 1:2 "]);
}

#[test]
fn resize_clears_and_repaints() {
    let mut t = Terminal::new(80, 24);
    let cmds = t.handle_event(Event::Resize(10, 5));
    assert!(matches!(cmds[0], ScreenCommand::ClearAll));
    // The status line now sits two rows above the new bottom.
    assert!(cmds.iter().any(|c| matches!(c, ScreenCommand::MoveToRow(3))));
}

#[test]
fn mode_labels() {
    assert_eq!(Mode::Normal.label().iter().collect::<String>(), "NORMAL");
    assert_eq!(Mode::Insert.label().iter().collect::<String>(), "INSERT");
}

#[test]
fn decimal_digits_are_exact() {
    assert_eq!(edit_core::render::decimal_chars(0), vec!['0']);
    assert_eq!(edit_core::render::decimal_chars(7), vec!['7']);
    assert_eq!(edit_core::render::decimal_chars(42), vec!['4', '2']);
    assert_eq!(edit_core::render::decimal_chars(105), vec!['1', '0', '5']);
}
