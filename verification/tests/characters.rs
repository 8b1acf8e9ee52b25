use znaide_tui::quick_cfg::{parse_qc_alias, QcItem};
use znaide_tui::scan::{join_from, split_words};
use znaide_tui::sessions_ui::SessionsUi;
use znaide_tui::text::{
    char_is_control, char_is_digit, char_is_white, dec64, pad, read_number, text_width, wc,
};

#[test]
fn classes_are_those_of_unicode() {
    for n in 0..=0x10ffffu32 {
        if let Some(c) = char::from_u32(n) {
            assert_eq!(char_is_control(c), c.is_control(), "{n:x}");
            assert_eq!(char_is_white(c), c.is_whitespace(), "{n:x}");
            assert_eq!(char_is_digit(c), c.is_ascii_digit(), "{n:x}");
        }
    }
}

#[test]
fn widths_of_characters() {
    assert_eq!(wc('a'), 1);
    assert_eq!(wc('中'), 2);
    assert_eq!(text_width("a中b"), 4);
    assert_eq!(text_width(""), 0);
}

#[test]
fn numbers_are_written_in_decimal() {
    assert_eq!(dec64(0), "0");
    assert_eq!(dec64(1_048_576), "1048576");
    assert_eq!(dec64(u64::MAX), u64::MAX.to_string());
}

#[test]
fn numbers_are_read_up_to_a_limit() {
    assert_eq!(read_number("0042", 100), Some(42));
    assert_eq!(read_number("+7", 100), Some(7));
    assert_eq!(read_number("101", 100), None);
    assert_eq!(read_number("", 100), None);
    assert_eq!(read_number("+", 100), None);
    assert_eq!(read_number("-1", 100), None);
    assert_eq!(read_number("1x", 100), None);
    assert_eq!(read_number("18446744073709551615", u64::MAX), Some(u64::MAX));
    assert_eq!(read_number("18446744073709551616", u64::MAX), None);
    assert_eq!(pad(7, 2), "07");
    assert_eq!(pad(2024, 2), "2024");
}

#[test]
fn capitals_do_not_matter() {
    assert_eq!(parse_qc_alias("  ModEL "), Some(QcItem::Model));
    let mut ui = SessionsUi::open(&Vec::new(), &Vec::new(), "");
    ui.filter = "ÀB".to_string();
    ui.clamp_cursor();
    assert!(ui.empty());
}

#[test]
fn words_are_split_and_joined() {
    let words = split_words("  a\tb  中文 ");
    assert_eq!(words, vec!["a", "b", "中文"]);
    assert_eq!(join_from(&words, 0, " "), "a b 中文");
}
