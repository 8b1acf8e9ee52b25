use std::collections::HashSet;
use znaide_tui::content::{build_content_lines, logo_lines};
use znaide_tui::meter::{
    ctx_usage_badge, est_tokens, fmt_ms_budget, fmt_tokens, pulse_char, shrink_char, usage_percent,
    wave_row,
};
use znaide_tui::messages::MsgItem;
use znaide_tui::style::Color;
use znaide_tui::transcript::BusyKind;

const BAR_LEVELS: [char; 8] = ['▁', '▂', '▃', '▄', '▅', '▆', '▇', '█'];

#[test]
fn estimate_mixed_text() {
    assert_eq!(est_tokens("你好世界"), 4);
    assert_eq!(est_tokens("abcdefghijklmnop"), 4);
    assert_eq!(est_tokens("你好吗abcdefghijkl"), 6);
    assert_eq!(est_tokens(""), 0);
}

#[test]
fn token_fmt_abbrev() {
    assert_eq!(fmt_tokens(0), "0");
    assert_eq!(fmt_tokens(999), "999");
    assert_eq!(fmt_tokens(1234), "1.2k");
    assert_eq!(fmt_tokens(12_345), "12.3k");
    assert_eq!(fmt_tokens(2_300_000), "2.3M");
}

fn by_float(n: u64) -> String {
    if n >= 1_000_000 {
        format!("{:.1}M", n as f64 / 1_000_000.0)
    } else if n >= 1_000 {
        format!("{:.1}k", n as f64 / 1_000.0)
    } else {
        n.to_string()
    }
}

#[test]
fn tokens_are_rounded_as_doubles_are() {
    for n in 0u64..1_000_000 {
        if n < 20_000 || n % 50 == 0 || n % 997 == 0 {
            assert_eq!(fmt_tokens(n), by_float(n), "{n}");
        }
    }
    let mut n: u64 = 1_000_000;
    while n < u64::MAX / 3 {
        for d in 0u64..40 {
            let m = n + d * 25_000;
            assert_eq!(fmt_tokens(m), by_float(m), "{m}");
        }
        n = n / 2 * 3 + 7;
    }
    for k in 0u64..64 {
        let p = 1u64 << k;
        for m in [p, p - 1, p + 1, p | 0x155, p | 0x7ff] {
            assert_eq!(fmt_tokens(m), by_float(m), "{m}");
        }
    }
    for m in [u64::MAX, u64::MAX - 1, u64::MAX - 1024, u64::MAX - 1025, 9_007_199_254_740_993] {
        assert_eq!(fmt_tokens(m), by_float(m), "{m}");
    }
    for t in 0u64..20_000 {
        let m = 1_050_000 + t * 100_000;
        assert_eq!(fmt_tokens(m), by_float(m), "{m}");
    }
}

#[test]
fn ms_budget_fmt() {
    assert_eq!(fmt_ms_budget(90_000), "90s");
    assert_eq!(fmt_ms_budget(240_000), "4min");
    assert_eq!(fmt_ms_budget(150_000), "150s");
    assert_eq!(fmt_ms_budget(600_000), "10min");
}

#[test]
fn short_budgets_are_seconds() {
    assert_eq!(fmt_ms_budget(999), "0s");
    assert_eq!(fmt_ms_budget(59_999), "59s");
    assert_eq!(fmt_ms_budget(60_999), "1min");
}

#[test]
fn wave_row_length_and_motion() {
    let w0 = wave_row(0, 8);
    let w1 = wave_row(1, 8);
    assert_eq!(w0.chars().count(), 8);
    assert_eq!(w1.chars().count(), 8);
    assert_ne!(w0, w1, "相位推进应有可见变化");
    assert!(w0.chars().all(|c| BAR_LEVELS.contains(&c)));
    assert_eq!(wave_row(0, 4).chars().count(), 4);
}

#[test]
fn wave_moves_to_the_left() {
    assert_eq!(wave_row(0, 8), "▁▂▄▆█▆▄▂");
    assert_eq!(wave_row(1, 8), "▂▄▆█▆▄▂▁");
    assert_eq!(wave_row(8, 8), wave_row(0, 8));
    assert_eq!(wave_row(0, 1).chars().count(), 2);
    assert_eq!(wave_row(usize::MAX, 4).chars().count(), 4);
}

#[test]
fn pulse_char_cycles() {
    let seen: HashSet<char> = (0..16).map(|f| pulse_char(f)).collect();
    assert!(seen.len() >= 4, "8 帧周期内应出现多个档位,实际 {seen:?}");
    assert_eq!(pulse_char(8), pulse_char(0));
}

#[test]
fn shrinking_cell_cycles() {
    let s: String = (0..14).map(|f| shrink_char(f)).collect();
    assert_eq!(s, "█▉▊▋▌▍▎▏▎▍▌▋▊▉");
    assert_eq!(shrink_char(14), shrink_char(0));
}

#[test]
fn logo_spells_znaide() {
    let lines = logo_lines();
    assert_eq!(lines.len(), 7);
    assert!(lines[0].starts_with("░█████████"));
    assert!(lines[1].trim_start().starts_with("░██"));
    assert!(lines[0].ends_with("░██████████"));
    assert!(lines[6].ends_with("░██████████"));
}

#[test]
fn logo_fades_from_cyan_to_magenta() {
    let items = vec![MsgItem::Logo];
    let lines = build_content_lines(&items, false, BusyKind::Work, 80, 0, 0);
    assert_eq!(lines.len(), 8);
    for r in 0..7usize {
        let t = r as f32 / 6.0f32;
        let want = Color::Rgb((255.0 * t) as u8, (255.0 * (1.0 - t)) as u8, 255);
        assert_eq!(lines[r].spans[0].style.fg, Some(want));
        assert!(lines[r].spans[0].style.on.bold);
    }
    assert!(lines[7].spans.is_empty());
}

#[test]
fn badge_usage_and_colors() {
    assert!(ctx_usage_badge(100, 0).is_none());
    let (t, c) = ctx_usage_badge(0, 40_960).unwrap();
    assert!(t.contains("0%"));
    assert!(t.matches('░').count() == 10);
    assert_eq!(c, Color::DarkGray);
    let (t, c) = ctx_usage_badge(10_240, 40_960).unwrap();
    assert!(t.starts_with("ctx "));
    assert!(t.contains("25%"));
    assert!(t.matches('█').count() >= 2 && t.matches('█').count() <= 3);
    assert_eq!(c, Color::DarkGray);
    let (_, c) = ctx_usage_badge(28_672, 40_960).unwrap();
    assert_eq!(c, Color::Yellow);
    let (t, c) = ctx_usage_badge(37_000, 40_960).unwrap();
    assert_eq!(c, Color::Red);
    assert!(t.contains('█'));
    let (t, _) = ctx_usage_badge(1_000_000, 40_960).unwrap();
    assert!(t.ends_with("100%"));
}

#[test]
fn badge_cells_are_rounded() {
    for pct in 0u64..=100 {
        let (t, _) = ctx_usage_badge(pct, 100).unwrap();
        let want = (pct as f64 / 10.0).round() as usize;
        assert_eq!(t.matches('█').count(), want);
        assert_eq!(t.matches('░').count(), 10 - want);
        assert_eq!(usage_percent(pct, 100), pct);
    }
    assert_eq!(ctx_usage_badge(5, 100).unwrap().0, "ctx █░░░░░░░░░ 5%");
    assert_eq!(usage_percent(u64::MAX, 1), 100);
}
