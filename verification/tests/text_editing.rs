use kirei::input::{command_for_key, is_control, EditCommand, Key, Modifiers, NamedKey};
use kirei::text::{
    area_needs_positions, area_takes_char, chars_of, count_lines, line_bounds, line_index_for,
    line_needs_positions, line_takes_char, masked_text, selection_on_line, string_of, EditAction,
    LineSpan, TextEditor,
};

fn editor(text: &str, cursor: usize, selection: Option<usize>, max: Option<usize>) -> TextEditor {
    TextEditor {
        text: text.to_string(),
        cursor_pos: cursor,
        selection_start: selection,
        max_chars: max,
    }
}

fn ctrl() -> Modifiers {
    Modifiers { ctrl: true, shift: false, alt: false }
}

#[test]
fn chars_and_strings_round_trip() {
    let v = chars_of("héllo");
    assert_eq!(v, vec!['h', 'é', 'l', 'l', 'o']);
    assert_eq!(string_of(&v), "héllo");
    assert_eq!(string_of(&Vec::new()), "");
}

#[test]
fn insert_text_at_cursor() {
    let mut e = editor("helo", 3, None, None);
    assert!(e.insert_text("l"));
    assert_eq!(e.text, "hello");
    assert_eq!(e.cursor_pos, 4);
    assert!(!e.insert_text(""));
    assert_eq!(e.text, "hello");
}

#[test]
fn insert_text_replaces_selection() {
    let mut e = editor("hello world", 6, Some(11), None);
    assert!(e.insert_text("there"));
    assert_eq!(e.text, "hello there");
    assert_eq!(e.cursor_pos, 11);
    assert_eq!(e.selection_start, None);
}

#[test]
fn insert_text_stops_at_max_chars() {
    let mut e = editor("abc", 3, None, Some(5));
    assert_eq!(e.remaining_capacity(), Some(2));
    assert!(e.insert_text("xyz"));
    assert_eq!(e.text, "abcxy");
    assert_eq!(e.cursor_pos, 5);
    assert!(!e.insert_text("q"));
    assert_eq!(e.text, "abcxy");
    assert_eq!(e.remaining_capacity(), Some(0));
    // a text already over the limit has no room left
    let over = editor("abcdef", 0, None, Some(3));
    assert_eq!(over.remaining_capacity(), Some(0));
    assert_eq!(editor("abc", 0, None, None).remaining_capacity(), None);
}

#[test]
fn insert_over_selection_counts_room_after_deleting_it() {
    let mut e = editor("abcde", 1, Some(4), Some(5));
    assert!(e.insert_text("XYZW"));
    assert_eq!(e.text, "aXYZe");
    assert_eq!(e.cursor_pos, 4);
}

#[test]
fn selection_range_is_ordered() {
    assert_eq!(editor("hello", 1, Some(4), None).get_selection_range(), Some((1, 4)));
    assert_eq!(editor("hello", 4, Some(1), None).get_selection_range(), Some((1, 4)));
    assert_eq!(editor("hello", 4, None, None).get_selection_range(), None);
    assert_eq!(editor("héllo", 0, Some(3), None).get_selected_text(), Some("hél".to_string()));
    assert_eq!(editor("hello", 2, None, None).get_selected_text(), None);
}

#[test]
fn delete_selection_removes_range() {
    let mut e = editor("hello world", 11, Some(5), None);
    assert!(e.delete_selection());
    assert_eq!(e.text, "hello");
    assert_eq!(e.cursor_pos, 5);
    assert_eq!(e.selection_start, None);
    assert!(!e.delete_selection());
}

#[test]
fn backspace_and_delete() {
    let mut e = editor("abc", 2, None, None);
    assert!(e.backspace());
    assert_eq!((e.text.as_str(), e.cursor_pos), ("ac", 1));
    assert!(e.delete_forward());
    assert_eq!((e.text.as_str(), e.cursor_pos), ("a", 1));
    assert!(!e.delete_forward());
    e.cursor_pos = 0;
    assert!(!e.backspace());
    assert_eq!(e.text, "a");
    let mut s = editor("abcd", 1, Some(3), None);
    assert!(s.backspace());
    assert_eq!((s.text.as_str(), s.cursor_pos), ("ad", 1));
}

#[test]
fn cursor_moves_and_shift_selection() {
    let mut e = editor("abc", 1, None, None);
    assert!(e.move_right(true));
    assert_eq!((e.cursor_pos, e.selection_start), (2, Some(1)));
    assert!(e.move_right(true));
    assert!(!e.move_right(true));
    assert_eq!((e.cursor_pos, e.selection_start), (3, Some(1)));
    assert!(e.move_home(false));
    assert_eq!((e.cursor_pos, e.selection_start), (0, None));
    assert!(!e.move_left(false));
    assert!(e.move_end(true));
    assert_eq!((e.cursor_pos, e.selection_start), (3, Some(0)));
    assert!(!e.move_end(false));
    assert_eq!(e.selection_start, None);
    e.select_all();
    assert_eq!((e.cursor_pos, e.selection_start), (3, Some(0)));
}

#[test]
fn finalize_applies_sanitizer_and_limit() {
    let mut e = editor("Hello", 5, None, Some(4));
    let previous = "Hell".to_string();
    assert!(e.finalize_text_change(&previous, Some("hello!".to_string())));
    assert_eq!(e.text, "hell");
    assert_eq!(e.cursor_pos, 4);
    let mut same = editor("abc", 3, None, None);
    assert!(!same.finalize_text_change(&"abc".to_string(), None));
    let mut shorter = editor("abcdef", 6, None, None);
    assert!(shorter.finalize_text_change(&"abcdef".to_string(), Some("ab".to_string())));
    assert_eq!((shorter.text.as_str(), shorter.cursor_pos), ("ab", 2));
}

#[test]
fn key_commands_follow_ctrl_letters() {
    let key = |s: &str| Key::Character(s.to_string());
    assert_eq!(command_for_key(&key("a"), ctrl()), EditCommand::SelectAll);
    assert_eq!(command_for_key(&key("A"), ctrl()), EditCommand::SelectAll);
    assert_eq!(command_for_key(&key("c"), ctrl()), EditCommand::Copy);
    assert_eq!(command_for_key(&key("X"), ctrl()), EditCommand::Cut);
    assert_eq!(command_for_key(&key("v"), ctrl()), EditCommand::Paste);
    assert_eq!(command_for_key(&key("a"), Modifiers::default()), EditCommand::Nothing);
    assert_eq!(command_for_key(&key("ab"), ctrl()), EditCommand::Nothing);
    assert_eq!(command_for_key(&key("b"), ctrl()), EditCommand::Nothing);
    assert_eq!(
        command_for_key(&Key::Named(NamedKey::Backspace), ctrl()),
        EditCommand::Backspace
    );
    assert_eq!(command_for_key(&Key::Named(NamedKey::Escape), ctrl()), EditCommand::Nothing);
    assert_eq!(command_for_key(&Key::Unidentified, ctrl()), EditCommand::Nothing);
}

#[test]
fn line_commands_edit_and_report() {
    let mut e = editor("hello", 5, None, None);
    match e.apply_line_command(EditCommand::SelectAll, false, true) {
        EditAction::Handled { edited: false, cursor_moved: true } => {}
        other => panic!("unexpected {:?}", other),
    }
    match e.apply_line_command(EditCommand::Copy, false, true) {
        EditAction::Copy(s) => assert_eq!(s, "hello"),
        other => panic!("unexpected {:?}", other),
    }
    match e.apply_line_command(EditCommand::Copy, false, false) {
        EditAction::Handled { edited: false, cursor_moved: false } => {}
        other => panic!("unexpected {:?}", other),
    }
    match e.apply_line_command(EditCommand::Cut, false, true) {
        EditAction::Cut(s) => assert_eq!(s, "hello"),
        other => panic!("unexpected {:?}", other),
    }
    assert_eq!(e.text, "");
    match e.apply_line_command(EditCommand::Space, false, true) {
        EditAction::Handled { edited: true, .. } => {}
        other => panic!("unexpected {:?}", other),
    }
    assert_eq!(e.text, " ");
    assert!(matches!(e.apply_line_command(EditCommand::Paste, false, true), EditAction::Paste));
    assert!(matches!(e.apply_line_command(EditCommand::Enter, false, true), EditAction::Ignored));
    e.selection_start = Some(0);
    assert!(matches!(
        e.apply_line_command(EditCommand::Tab, true, true),
        EditAction::MoveFocus { backward: true }
    ));
    assert_eq!(e.selection_start, None);
}

#[test]
fn masked_cut_deletes_without_clipboard() {
    let mut e = editor("secret", 6, Some(0), None);
    match e.apply_line_command(EditCommand::Cut, false, false) {
        EditAction::Handled { edited: true, cursor_moved: false } => {}
        other => panic!("unexpected {:?}", other),
    }
    assert_eq!(e.text, "");
}

#[test]
fn typed_characters_in_single_line_input() {
    let mut e = editor("", 0, None, None);
    assert!(matches!(e.apply_line_char('x'), EditAction::Handled { edited: true, .. }));
    assert!(matches!(e.apply_line_char('\t'), EditAction::Handled { edited: true, .. }));
    assert!(matches!(e.apply_line_char('\u{8}'), EditAction::Ignored));
    assert!(matches!(e.apply_line_char('\n'), EditAction::Ignored));
    assert_eq!(e.text, "x\t");
    assert!(is_control('\u{7f}') && is_control('\u{9f}') && !is_control('\u{a0}'));
}

#[test]
fn typed_characters_in_multi_line_input() {
    let mut e = editor("", 0, None, None);
    e.apply_area_char('a', false);
    e.apply_area_char('\r', false);
    e.apply_area_char('b', false);
    assert!(matches!(e.apply_area_char('\t', false), EditAction::Ignored));
    assert!(matches!(e.apply_area_char('\t', true), EditAction::Handled { edited: true, .. }));
    assert_eq!(e.text, "a\nb\t");
}

#[test]
fn area_home_end_use_line_spans() {
    let lines = [LineSpan { start: 0, end: 5 }, LineSpan { start: 6, end: 11 }];
    assert_eq!(line_index_for(&lines, 3), 0);
    assert_eq!(line_index_for(&lines, 5), 0);
    assert_eq!(line_index_for(&lines, 8), 1);
    assert_eq!(line_index_for(&lines, 40), 1);
    assert_eq!(line_index_for(&[], 4), 0);
    assert_eq!(line_bounds(&lines, 8), (6, 11));
    assert_eq!(line_bounds(&[], 8), (0, 0));
    let mut e = editor("hello\nworld", 8, None, None);
    e.apply_area_command(EditCommand::Home, false, false, &lines);
    assert_eq!(e.cursor_pos, 6);
    e.apply_area_command(EditCommand::End, true, false, &lines);
    assert_eq!((e.cursor_pos, e.selection_start), (11, Some(6)));
    assert!(matches!(
        e.apply_area_command(EditCommand::Up, false, false, &lines),
        EditAction::MoveVertical { up: true }
    ));
    assert_eq!(e.selection_start, None);
    e.apply_area_command(EditCommand::Enter, false, false, &lines);
    assert_eq!(e.text, "hello\nworld\n");
    assert!(matches!(
        e.apply_area_command(EditCommand::Tab, false, false, &lines),
        EditAction::Ignored
    ));
}

#[test]
fn mouse_selection_lifecycle() {
    let mut e = editor("hello", 0, None, None);
    let out = e.handle_press(false, true, 2);
    assert!(out.focused && out.dragging && out.handled && !out.blurred);
    assert_eq!((e.cursor_pos, e.selection_start), (2, Some(2)));
    e.end_drag();
    assert_eq!(e.selection_start, None);
    e.handle_press(true, true, 1);
    e.drag_to(4);
    e.end_drag();
    assert_eq!(e.get_selection_range(), Some((1, 4)));
    let out = e.handle_press(true, false, 0);
    assert!(!out.focused && out.handled && out.blurred);
    assert_eq!(e.selection_start, None);
    assert_eq!(e.cursor_pos, 4);
}

#[test]
fn line_counting_and_masking() {
    assert_eq!(count_lines(""), 1);
    assert_eq!(count_lines("a\nb\n"), 3);
    assert_eq!(masked_text("pässwd", '•'), "••••••");
    assert_eq!(masked_text("", '*'), "");
}

#[test]
fn selection_is_cut_into_per_line_pieces() {
    let first = LineSpan { start: 0, end: 5 };
    let second = LineSpan { start: 6, end: 10 };
    assert_eq!(selection_on_line(3, 8, first), Some((3, 5)));
    assert_eq!(selection_on_line(3, 8, second), Some((0, 2)));
    assert_eq!(selection_on_line(0, 5, second), None);
    assert_eq!(selection_on_line(5, 6, first), None);
    assert_eq!(selection_on_line(7, 9, second), Some((1, 3)));
}

#[test]
fn restore_clamps_a_stale_cursor_only_when_asked() {
    let e = TextEditor::restore("abc".to_string(), 7, Some(9), Some(5), true);
    assert_eq!(e.cursor_pos, 3);
    assert_eq!(e.selection_start, Some(9));
    assert_eq!(e.max_chars, Some(5));
    assert!(!e.positions_in_text());
    let e = TextEditor::restore("abc".to_string(), 7, Some(9), Some(5), false);
    assert_eq!(e.cursor_pos, 7);
    assert_eq!(e.selection_start, Some(9));
    let e = TextEditor::restore("héllo".to_string(), 2, None, None, true);
    assert_eq!(e.cursor_pos, 2);
    assert_eq!(e.selection_start, None);
    assert!(e.positions_in_text());
}

fn upper(t: String) -> Option<String> {
    Some(t.to_uppercase())
}

fn keep(_t: String) -> Option<String> {
    None
}

#[test]
fn line_char_step_sanitizes_and_reports_change() {
    let mut e = editor("ab", 2, None, Some(3));
    let out = e.line_char_step('c', &upper);
    assert!(matches!(out.action, EditAction::Handled { edited: true, cursor_moved: false }));
    assert!(out.settled);
    assert!(out.changed);
    assert_eq!(e.text, "ABC");
    assert_eq!(e.cursor_pos, 3);
    // at the limit nothing goes in, nothing is settled
    let out = e.line_char_step('d', &upper);
    assert!(matches!(out.action, EditAction::Handled { edited: false, .. }));
    assert!(!out.settled);
    assert!(!out.changed);
    assert_eq!(e.text, "ABC");
    // a control character is ignored
    let out = e.line_char_step('\u{7}', &upper);
    assert!(matches!(out.action, EditAction::Ignored));
    assert!(!out.changed);
}

#[test]
fn sanitizer_that_truncates_past_the_limit_is_cut_back() {
    let mut e = editor("ab", 2, None, Some(3));
    let out = e.line_char_step('c', &|t: String| Some(format!("{}{}", t, t)));
    assert!(out.changed);
    assert_eq!(e.text, "abc");
    assert_eq!(e.cursor_pos, 3);
}

#[test]
fn line_key_step_pastes_the_clipboard_text() {
    let mut e = editor("ab", 1, None, None);
    let out = e.line_key_step(EditCommand::Paste, false, true, Some("xy".to_string()), &keep);
    assert!(matches!(out.action, EditAction::Paste));
    assert!(out.settled);
    assert!(out.changed);
    assert_eq!(e.text, "axyb");
    assert_eq!(e.cursor_pos, 3);
    // an unreadable clipboard leaves everything as it was
    let out = e.line_key_step(EditCommand::Paste, false, true, None, &keep);
    assert!(matches!(out.action, EditAction::Paste));
    assert!(!out.settled);
    assert!(!out.changed);
    assert_eq!(e.text, "axyb");
}

#[test]
fn line_key_step_cuts_and_copies() {
    let mut e = editor("hello", 4, Some(1), None);
    let out = e.line_key_step(EditCommand::Copy, false, true, None, &keep);
    assert!(matches!(&out.action, EditAction::Copy(t) if t.as_str() == "ell"));
    assert!(!out.changed);
    let out = e.line_key_step(EditCommand::Cut, false, true, None, &upper);
    assert!(matches!(&out.action, EditAction::Cut(t) if t.as_str() == "ell"));
    assert!(out.settled);
    assert!(out.changed);
    assert_eq!(e.text, "HO");
    assert_eq!(e.cursor_pos, 1);
    assert_eq!(e.selection_start, None);
}

#[test]
fn line_key_step_tab_moves_focus_and_drops_the_selection() {
    let mut e = editor("hello", 4, Some(1), None);
    let out = e.line_key_step(EditCommand::Tab, true, true, None, &keep);
    assert!(matches!(out.action, EditAction::MoveFocus { backward: true }));
    assert!(!out.settled);
    assert!(!out.changed);
    assert_eq!(e.selection_start, None);
    assert_eq!(e.cursor_pos, 4);
}

#[test]
fn area_key_step_enter_and_vertical_moves() {
    let mut e = editor("ab", 1, None, None);
    let lines = [LineSpan { start: 0, end: 2 }];
    let out = e.area_key_step(EditCommand::Enter, false, false, &lines, None, &keep);
    assert!(out.settled);
    assert!(out.changed);
    assert_eq!(e.text, "a\nb");
    assert_eq!(e.cursor_pos, 2);
    let lines = [LineSpan { start: 0, end: 1 }, LineSpan { start: 2, end: 3 }];
    let out = e.area_key_step(EditCommand::Up, false, false, &lines, None, &keep);
    assert!(matches!(out.action, EditAction::MoveVertical { up: true }));
    assert!(!out.changed);
    assert_eq!(e.text, "a\nb");
}

#[test]
fn area_char_step_turns_return_into_newline_and_respects_tabs() {
    let mut e = editor("ab", 2, None, None);
    let out = e.area_char_step('\r', false, &keep);
    assert!(out.changed);
    assert_eq!(e.text, "ab\n");
    let out = e.area_char_step('\t', false, &keep);
    assert!(matches!(out.action, EditAction::Ignored));
    assert!(!out.changed);
    let out = e.area_char_step('\t', true, &keep);
    assert!(out.changed);
    assert_eq!(e.text, "ab\n\t");
}

#[test]
fn commit_step_inserts_and_always_settles() {
    let mut e = editor("ab", 1, None, Some(3));
    assert!(e.commit_step("xyz", &keep));
    assert_eq!(e.text, "axb");
    assert_eq!(e.cursor_pos, 2);
    assert!(!e.commit_step("", &keep));
    assert!(e.commit_step("", &upper));
    assert_eq!(e.text, "AXB");
}

#[test]
fn precondition_checks_for_the_step_functions() {
    assert!(line_needs_positions(EditCommand::Backspace));
    assert!(!line_needs_positions(EditCommand::Left));
    assert!(!line_needs_positions(EditCommand::Enter));
    assert!(area_needs_positions(EditCommand::Enter, false));
    assert!(area_needs_positions(EditCommand::Tab, true));
    assert!(!area_needs_positions(EditCommand::Tab, false));
    assert!(line_takes_char('x'));
    assert!(line_takes_char('\t'));
    assert!(!line_takes_char('\n'));
    assert!(area_takes_char('\n', false));
    assert!(!area_takes_char('\t', false));
    assert!(area_takes_char('\t', true));
}

#[test]
fn a_stale_selection_start_does_not_move_the_cursor_out_of_the_text() {
    let mut e = TextEditor::restore("abc".to_string(), 1, Some(9), Some(5), false);
    let out = e.line_key_step(EditCommand::Right, false, true, None, &keep);
    assert!(matches!(out.action, EditAction::Handled { edited: false, cursor_moved: true }));
    assert_eq!(e.cursor_pos, 2);
    assert_eq!(e.selection_start, None);
    let mut e = TextEditor::restore("abc".to_string(), 3, Some(9), None, true);
    let lines = [LineSpan { start: 0, end: 3 }];
    let out = e.area_key_step(EditCommand::Home, true, false, &lines, None, &keep);
    assert!(!out.changed);
    assert_eq!(e.cursor_pos, 0);
    assert_eq!(e.selection_start, Some(9));
}
