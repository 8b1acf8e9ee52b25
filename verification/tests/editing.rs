use znaide_tui::editor::{
    backspace_at, cursor_next, cursor_prev, delete_at, handle_text_key, insert_at, insert_str_at,
    length, locate, normalize_line_ends, sanitize_typed_text, TextAction,
};
use znaide_tui::input::{KeyCode, KeyEvent};
use znaide_tui::input_box::{input_phys_lines, input_prefix, render_input};
use znaide_tui::style::{Color, Line};

fn key(code: KeyCode) -> KeyEvent {
    KeyEvent::plain(code)
}

fn text_of(l: &Line) -> String {
    let mut s = String::new();
    for p in &l.spans {
        s.push_str(&p.content);
    }
    s
}

#[test]
fn plain_enter_submits() {
    let input = String::from("hello");
    match handle_text_key(key(KeyCode::Enter)) {
        TextAction::Submit => {
            assert_eq!(input, "hello");
        }
        _ => panic!("普通 Enter 应发送"),
    }
}

#[test]
fn shift_enter_newline() {
    let input = String::from("ab");
    let k = KeyEvent { code: KeyCode::Enter, shift: true, control: false, alt: false };
    match handle_text_key(k) {
        TextAction::Newline => {}
        _ => panic!("Shift+Enter 应换行"),
    }
    assert_eq!(input, "ab");
}

#[test]
fn alt_enter_newline() {
    let k = KeyEvent { code: KeyCode::Enter, shift: false, control: false, alt: true };
    match handle_text_key(k) {
        TextAction::Newline => {}
        _ => panic!("Alt+Enter 应换行"),
    }
}

#[test]
fn ctrl_j_newline() {
    let k = KeyEvent { code: KeyCode::Char('j'), shift: false, control: true, alt: false };
    match handle_text_key(k) {
        TextAction::Newline => {}
        _ => panic!("Ctrl+J 应换行"),
    }
}

#[test]
fn plain_char_inserts() {
    let mut input = String::from("a");
    match handle_text_key(key(KeyCode::Char('b'))) {
        TextAction::Insert(c) => {
            assert_eq!(c, 'b');
            input.push(c);
        }
        _ => panic!("普通字符应插入"),
    }
    assert_eq!(input, "ab");
}

#[test]
fn backspace() {
    assert!(matches!(handle_text_key(key(KeyCode::Backspace)), TextAction::Backspace));
}

#[test]
fn other_keys_leave_the_text() {
    assert!(matches!(handle_text_key(key(KeyCode::Esc)), TextAction::Idle));
    assert!(matches!(handle_text_key(key(KeyCode::Up)), TextAction::Idle));
}

#[test]
fn paste_then_backspace_deletes() {
    let mut input = String::new();
    let pasted = normalize_line_ends("line one\r\nline two\n");
    let mut cur = insert_str_at(&mut input, 0, &pasted);
    assert_eq!(input, "line one\nline two\n");
    assert_eq!(cur, input.len());
    for _ in 0..4 {
        cur = backspace_at(&mut input, cur);
    }
    assert_eq!(input, "line one\nline ");
}

#[test]
fn line_ends_become_line_feeds() {
    for s in ["a\r\nb", "a\rb", "a\r\r\nb", "\r\n\r\n", "a\n\rb", "plain"] {
        let want = s.replace("\r\n", "\n").replace('\r', "\n");
        assert_eq!(normalize_line_ends(s), want);
    }
}

#[test]
fn cursor_edit_center() {
    let mut input = String::from("abcdef");
    let mut cur = 3;
    cur = insert_at(&mut input, cur, 'X');
    assert_eq!(input, "abcXdef");
    cur = backspace_at(&mut input, cur);
    assert_eq!(input, "abcdef");
    assert_eq!(cur, 3);
}

#[test]
fn delete_at_cursor() {
    let mut input = String::from("abcdef");
    let cur = 1;
    let cur = delete_at(&mut input, cur);
    assert_eq!(input, "acdef");
    let _ = cur;
}

#[test]
fn cursor_moves() {
    let input = String::from("aé中");
    assert_eq!(cursor_next(&input, 0), 'a'.len_utf8());
    assert_eq!(cursor_prev(&input, input.len()), input.len() - '中'.len_utf8());
}

#[test]
fn places_are_those_of_utf8() {
    let s = "aé中😀b";
    assert_eq!(length(s), s.len());
    let mut k = 0;
    for (i, _) in s.char_indices() {
        assert_eq!(locate(s, i), (k, i));
        k += 1;
    }
    assert_eq!(locate(s, s.len()), (k, s.len()));
}

#[test]
fn moves_undo_each_other() {
    let s = "aé中😀b";
    for (i, _) in s.char_indices() {
        assert_eq!(cursor_prev(s, cursor_next(s, i)), i);
        if i > 0 {
            assert_eq!(cursor_next(s, cursor_prev(s, i)), i);
        }
    }
    assert_eq!(cursor_next(s, 100), s.len());
    assert_eq!(cursor_prev(s, 0), 0);
}

#[test]
fn delete_undoes_insert_behind_cursor() {
    let mut s = String::from("a中b");
    insert_at(&mut s, 1, '😀');
    assert_eq!(s, "a😀中b");
    assert_eq!(delete_at(&mut s, 1), 1);
    assert_eq!(s, "a中b");
    assert_eq!(delete_at(&mut s, 5), 5);
    assert_eq!(s, "a中b");
}

#[test]
fn phys_lines_basic() {
    assert_eq!(input_phys_lines("", 30), 1);
    assert_eq!(input_phys_lines("abc", 30), 1);
    assert_eq!(input_phys_lines("a\nb", 30), 2);
    assert_eq!(input_phys_lines("a\n\nb", 30), 3);
    assert_eq!(input_phys_lines("abc\n", 30), 2);
}

#[test]
fn phys_lines_wrap_by_display_width() {
    assert_eq!(input_phys_lines("abcdefghijklmnop", 8), 2);
    assert_eq!(input_phys_lines("你好世界", 4), 2);
    assert_eq!(input_phys_lines("你好世界", 8), 1);
    assert_eq!(input_phys_lines("abcdefghijklmnop\nabcdefghijklmnop", 8), 4);
}

#[test]
fn input_prefix_alignment() {
    let (f, c) = input_prefix("");
    assert_eq!(f, "❯ ");
    assert_eq!(c, "  ");
    let (f2, c2) = input_prefix(" [等待确认]");
    assert_eq!(f2.chars().count(), c2.chars().count());
}

#[test]
fn strips_full_csi_mouse_sequence() {
    let s = "\x1b[<35;110;1M 你好";
    assert_eq!(sanitize_typed_text(s), " 你好");
}

#[test]
fn strips_bare_escape_and_control() {
    let s = "a\x1b\x07b\x01c\n\td";
    assert_eq!(sanitize_typed_text(s), "abc\n\td");
}

#[test]
fn keeps_normal_text_and_multiline() {
    let s = "读 @README.md\n粘贴正文";
    assert_eq!(sanitize_typed_text(s), s);
}

#[test]
fn cleaning_twice_changes_nothing_more() {
    for s in ["\x1b]0;t\x07x", "a\x1bOPb\nc", "\x1b[200~text\x1b[201~", "\x1b\x1b[Ax"] {
        let once = sanitize_typed_text(s);
        assert_eq!(sanitize_typed_text(&once), once);
    }
    assert_eq!(sanitize_typed_text("a\x1bOPb\nc"), "a\nc");
    assert_eq!(sanitize_typed_text("\x1b[200~text\x1b[201~"), "text");
}

#[test]
fn cursor_is_drawn_on_its_character() {
    let lines = render_input("ab中", 1, "", 8, 40, None);
    assert_eq!(lines.len(), 1);
    let spans = &lines[0].spans;
    assert_eq!(spans[0].content, "❯ ");
    assert_eq!(spans[1].content, "a");
    assert_eq!(spans[2].content, "b");
    assert_eq!(spans[2].style.bg, Some(Color::Cyan));
    assert_eq!(spans[3].content, "中");
    assert_eq!(spans.len(), 4);
}

#[test]
fn cursor_at_the_end_shows_the_preview() {
    let lines = render_input("/he", 3, "", 8, 40, Some("lp"));
    let spans = &lines[0].spans;
    assert_eq!(text_of(&lines[0]), "❯ /he▍lp");
    assert_eq!(spans[spans.len() - 1].style.fg, Some(Color::DarkGray));
    let empty = render_input("", 0, "", 8, 40, None);
    assert_eq!(empty.len(), 1);
    assert_eq!(text_of(&empty[0]), "❯  ");
}

#[test]
fn window_holds_the_cursor() {
    let text = "1\n2\n3\n4\n5\n6\n7\n8\n9\n10";
    let top = render_input(text, 0, "", 8, 40, None);
    assert_eq!(top.len(), 8);
    assert_eq!(text_of(&top[0]), "❯ 1");
    let bottom = render_input(text, text.len(), "", 8, 40, None);
    assert_eq!(bottom.len(), 8);
    assert_eq!(text_of(&bottom[7]), "  10▍");
    assert_eq!(input_phys_lines(text, 38), 10);
}

#[test]
fn only_the_first_row_has_the_prompt() {
    let lines = render_input("abcdefgh", 0, "", 8, 6, None);
    let texts: Vec<String> = lines.iter().map(|l| text_of(l)).collect();
    assert_eq!(texts, vec!["❯ abcd", "  efgh"]);
}

#[test]
fn cursor_stands_in_the_middle_of_the_window() {
    let lines = render_input("a\nb\nc\nd\ne\nf\ng\nh\ni\nj\nk\nl", 12, "", 4, 40, None);
    let texts: Vec<String> = lines.iter().map(|l| text_of(l)).collect();
    assert_eq!(texts, vec!["  e", "  f", "  g", "  h"]);
}
