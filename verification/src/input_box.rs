//! How the text under the cursor is drawn: rows of the width that is given, a
//! window of them that holds the cursor, and a faint preview behind it.
use crate::editor;
use crate::md;
use crate::scan;
use crate::style;
use crate::style::{Color, Line, Modifier, Span, SpanView, Style};
use crate::text;
use vstd::prelude::*;

verus! {

/// How many rows the text may take before the window scrolls.
pub const MAX_INPUT_ROWS: usize = 8;

/// What stands in front of the first row.
pub open spec fn first_prefix(label: Seq<char>) -> Seq<char> {
    "❯"@ + label + " "@
}

/// What stands in front of the other rows: blanks as long as the first prefix.
pub open spec fn next_prefix(label: Seq<char>) -> Seq<char> {
    text::repeated(' ', first_prefix(label).len())
}

/// What stands in front of the first row, and in front of the others.
pub fn input_prefix(label: &str) -> (r: (String, String))
    ensures
        r.0@ == first_prefix(label@),
        r.1@ == next_prefix(label@),
{
    let first = text::cat3("❯", label, " ");
    let n: usize = text::count_chars(first.as_str());
    (first, text::repeat_char(' ', n))
}

// ------------------------------------------------------------------------ rows

/// The rows of one line: an empty line takes one as well.
pub open spec fn rows_of(line: Seq<char>, w: nat) -> Seq<Seq<char>> {
    let segs = md::wrapped(line, w);
    if segs.len() == 0 {
        seq![Seq::<char>::empty()]
    } else {
        segs
    }
}

/// The rows of a list of lines.
pub open spec fn rows(lines: Seq<Seq<char>>, w: nat) -> Seq<Seq<char>>
    decreases lines.len(),
{
    if lines.len() == 0 {
        Seq::empty()
    } else {
        rows(lines.drop_last(), w) + rows_of(lines.last(), w)
    }
}

/// The rows of a text.
pub open spec fn text_rows(s: Seq<char>, w: nat) -> Seq<Seq<char>> {
    rows(scan::fields(s, '\n'), w)
}

fn append_rows(out: &mut Vec<String>, line: &str, w: u16)
    ensures
        scan::texts(final(out)@) == scan::texts(old(out)@) + rows_of(line@, w as nat),
{
    let mut segs = md::wrap_plain(line, w);
    proof {
        assert(scan::texts(segs@).len() == segs@.len());
    }
    if segs.len() == 0 {
        scan::push_text(&mut segs, String::new());
        proof {
            assert(scan::texts(segs@) =~= seq![Seq::<char>::empty()]);
        }
    }
    let ghost all = scan::texts(segs@);
    let ghost start = scan::texts(old(out)@);
    let mut i: usize = 0;
    proof {
        assert(start =~= start + all.take(0));
    }
    while i < segs.len()
        invariant
            all == scan::texts(segs@),
            i <= segs.len(),
            scan::texts(out@) == start + all.take(i as int),
        decreases segs.len() - i,
    {
        scan::push_text(out, segs[i].clone());
        proof {
            assert(start + all.take(i + 1) =~= (start + all.take(i as int)).push(all[i as int]));
        }
        i += 1;
    }
    proof {
        assert(all.take(i as int) =~= all);
    }
}

fn make_rows(lines: &Vec<String>, n: usize, w: u16) -> (out: Vec<String>)
    requires
        n <= lines.len(),
    ensures
        scan::texts(out@) == rows(scan::texts(lines@).take(n as int), w as nat),
        scan::texts(out@).len() == out@.len(),
{
    let ghost all = scan::texts(lines@);
    let mut out: Vec<String> = Vec::new();
    let mut i: usize = 0;
    proof {
        assert(scan::texts(out@) =~= Seq::<Seq<char>>::empty());
        assert(all.take(0) =~= Seq::<Seq<char>>::empty());
    }
    while i < n
        invariant
            all == scan::texts(lines@),
            i <= n <= lines.len(),
            scan::texts(out@) == rows(all.take(i as int), w as nat),
        decreases n - i,
    {
        proof {
            assert(all.take(i + 1).drop_last() =~= all.take(i as int));
        }
        append_rows(&mut out, lines[i].as_str(), w);
        i += 1;
    }
    out
}

/// How many rows a text takes in the given width; at least one column is assumed.
pub open spec fn row_count(s: Seq<char>, body_w: nat) -> nat {
    text_rows(
        s,
        if body_w < 1 {
            1
        } else if body_w > 65535 {
            65535
        } else {
            body_w
        },
    ).len()
}

/// How many rows a text takes in the given width.
pub fn input_phys_lines(input: &str, body_w: usize) -> (n: usize)
    ensures
        n == row_count(input@, body_w as nat),
{
    let w: u16 = if body_w < 1 {
        1
    } else if body_w > 65535 {
        65535
    } else {
        body_w as u16
    };
    let lines = scan::split(input, '\n');
    proof {
        assert(scan::texts(lines@).len() == lines@.len());
        assert(scan::texts(lines@).take(lines@.len() as int) =~= scan::texts(lines@));
    }
    let out = make_rows(&lines, lines.len(), w);
    out.len()
}

// ---------------------------------------------------------------------- cursor

/// The line that the cursor stands in, and how many characters of it stand before
/// the cursor.
pub open spec fn cursor_cell(s: Seq<char>, b: nat) -> (int, int) {
    let f = scan::fields(s.take(editor::begun(s, b)), '\n');
    (f.len() - 1, f.last().len() as int)
}

/// The row, from `i` on, that the character `col` of a line stands in, and its
/// column there; past all the rows, the first column of the last.
pub open spec fn find_row(segs: Seq<Seq<char>>, col: int, i: int) -> (int, int)
    decreases segs.len() - i,
{
    if i < 0 || i >= segs.len() {
        (
            if segs.len() == 0 {
                0
            } else {
                segs.len() - 1
            },
            0,
        )
    } else if col <= segs[i].len() {
        (i, col)
    } else {
        find_row(segs, col - segs[i].len(), i + 1)
    }
}

/// The row and the column that the cursor stands in.
pub open spec fn caret(s: Seq<char>, b: nat, w: nat) -> (int, int) {
    let lines = scan::fields(s, '\n');
    let (line, col) = cursor_cell(s, b);
    let (row, c) = find_row(md::wrapped(lines[line], w), col, 0);
    (rows(lines.take(line), w).len() + row, c)
}

/// The width that is left behind the prefix: four columns at least.
pub open spec fn body_width(label: Seq<char>, width: u16) -> nat {
    let p = first_prefix(label).len() % 65536;
    if width >= p + 4 {
        (width - p) as nat
    } else {
        4
    }
}

/// How many rows are shown.
pub open spec fn window_height(total: nat, max_rows: nat) -> nat {
    if max_rows < total {
        max_rows
    } else {
        total
    }
}

/// The first row that is shown, so that the cursor's row is in the middle of them, but
/// no row is left empty.
pub open spec fn window_start(total: nat, row: int, h: nat) -> int {
    let want = if row > h / 2 {
        row - h / 2
    } else {
        0
    };
    let most = if total > h {
        total - h
    } else {
        0
    };
    if want < most {
        want
    } else {
        most
    }
}

// --------------------------------------------------------------------- drawing

/// The style of the cursor.
pub open spec fn cursor_style() -> Style {
    style::colored(Color::Black).with_bg(Color::Cyan).with_on(Modifier::Bold)
}

/// The characters of a row, one span each, with the cursor on one of them.
pub open spec fn marked(seg: Seq<char>, col: int) -> Seq<SpanView>
    decreases seg.len(),
{
    if seg.len() == 0 {
        Seq::empty()
    } else {
        marked(seg.drop_last(), col).push(
            style::sv(
                seq![seg.last()],
                if seg.len() - 1 == col {
                    cursor_style()
                } else {
                    style::plain()
                },
            ),
        )
    }
}

/// The cursor behind the last character of its row.
pub open spec fn tail_mark(seg: Seq<char>, col: int) -> Seq<SpanView> {
    if col < seg.len() {
        Seq::empty()
    } else if seg.len() == 0 {
        seq![style::sv(" "@, cursor_style())]
    } else {
        seq![style::sv("▍"@, cursor_style())]
    }
}

/// The preview behind the cursor.
pub open spec fn preview(ghost_text: Option<Seq<char>>) -> Seq<SpanView> {
    match ghost_text {
        Some(g) => if g.len() > 0 {
            seq![style::sv(g, style::colored(Color::DarkGray))]
        } else {
            Seq::empty()
        },
        None => Seq::empty(),
    }
}

/// One row: its prefix, and its text, with the cursor where that stands in it.
pub open spec fn row_line(
    row: Seq<char>,
    first: bool,
    label: Seq<char>,
    here: bool,
    col: int,
    ghost_text: Option<Seq<char>>,
) -> Seq<SpanView> {
    let prefix = style::one(
        if first {
            first_prefix(label)
        } else {
            next_prefix(label)
        },
        style::bold(Color::Cyan),
    );
    if here {
        prefix + marked(row, col) + tail_mark(row, col) + preview(ghost_text)
    } else {
        prefix.push(style::sv(row, style::plain()))
    }
}

/// The rows `from..to`.
pub open spec fn row_lines(
    rs: Seq<Seq<char>>,
    from: int,
    to: int,
    label: Seq<char>,
    at: (int, int),
    ghost_text: Option<Seq<char>>,
) -> Seq<Seq<SpanView>>
    decreases to - from,
{
    if to <= from {
        Seq::empty()
    } else {
        row_lines(rs, from, to - 1, label, at, ghost_text).push(
            row_line(rs[to - 1], to - 1 == 0, label, to - 1 == at.0, at.1, ghost_text),
        )
    }
}

/// The text under the cursor, drawn.
pub open spec fn box_lines(
    s: Seq<char>,
    b: nat,
    label: Seq<char>,
    max_rows: nat,
    width: u16,
    ghost_text: Option<Seq<char>>,
) -> Seq<Seq<SpanView>> {
    let w = body_width(label, width);
    let rs = text_rows(s, w);
    let at = caret(s, editor::within(s, b), w);
    let h = window_height(rs.len(), max_rows);
    let from = window_start(rs.len(), at.0, h);
    row_lines(rs, from, from + h, label, at, ghost_text)
}

/// What a text holds, where there is one.
pub open spec fn opt_text(o: Option<&str>) -> Option<Seq<char>> {
    match o {
        Some(t) => Some(t@),
        None => None,
    }
}

proof fn lemma_field_count(s: Seq<char>, k: int)
    requires
        0 <= k <= s.len(),
    ensures
        1 <= scan::fields(s.take(k), '\n').len() <= scan::fields(s, '\n').len(),
    decreases s.len(),
{
    scan::lemma_fields_nonempty(s.take(k), '\n');
    if k == s.len() {
        assert(s.take(k) =~= s);
    } else {
        let t = s.drop_last();
        assert(t.take(k) =~= s.take(k));
        lemma_field_count(t, k);
    }
}

proof fn lemma_rows_grow(lines: Seq<Seq<char>>, n: int, w: nat)
    requires
        0 <= n <= lines.len(),
    ensures
        rows(lines.take(n), w).len() <= rows(lines, w).len(),
        n < lines.len() ==> rows(lines.take(n), w).len() + rows_of(lines[n], w).len() <= rows(
            lines,
            w,
        ).len(),
    decreases lines.len(),
{
    if n == lines.len() {
        assert(lines.take(n) =~= lines);
    } else {
        let t = lines.drop_last();
        assert(t.take(n) =~= lines.take(n));
        lemma_rows_grow(t, n, w);
        if n == t.len() {
            assert(lines.take(n) =~= t);
        }
    }
}

proof fn lemma_find_row(segs: Seq<Seq<char>>, col: int, i: int)
    requires
        0 <= i <= segs.len(),
        0 <= col,
    ensures
        0 <= find_row(segs, col, i).0,
        0 <= find_row(segs, col, i).1,
        find_row(segs, col, i).0 < (if segs.len() == 0 {
            1
        } else {
            segs.len() as int
        }),
    decreases segs.len() - i,
{
    if i < segs.len() && col > segs[i].len() {
        lemma_find_row(segs, col - segs[i].len(), i + 1);
    }
}

pub proof fn lemma_caret(s: Seq<char>, b: nat, w: nat)
    ensures
        0 <= cursor_cell(s, b).0 < scan::fields(s, '\n').len(),
        0 <= caret(s, b, w).0 < text_rows(s, w).len(),
        0 <= caret(s, b, w).1,
{
    editor::lemma_begun_bound(s, b);
    let k = editor::begun(s, b);
    lemma_field_count(s, k);
    let lines = scan::fields(s, '\n');
    let (line, col) = cursor_cell(s, b);
    lemma_find_row(md::wrapped(lines[line], w), col, 0);
    lemma_rows_grow(lines, line, w);
}

/// A text takes one row at least.
pub proof fn lemma_row_count(s: Seq<char>, body_w: nat)
    ensures
        row_count(s, body_w) > 0,
{
    let w = if body_w < 1 {
        1
    } else if body_w > 65535 {
        65535
    } else {
        body_w
    };
    lemma_caret(s, 0, w);
}

fn place_cursor(input: &str, cursor: usize, w: u16) -> (r: (usize, usize))
    ensures
        (r.0 as int, r.1 as int) == caret(input@, cursor as nat, w as nat),
{
    let ghost s = input@;
    let ghost b = cursor as nat;
    let (k, _at) = editor::locate(input, cursor);
    let v = text::chars_of(input);
    let before = text::string_of(&v, 0, k);
    let head = scan::split(before.as_str(), '\n');
    let lines = scan::split(input, '\n');
    proof {
        assert(s.subrange(0, k as int) =~= s.take(k as int));
        lemma_caret(s, b, w as nat);
        lemma_field_count(s, k as int);
        assert(scan::texts(head@).len() == head@.len());
        assert(scan::texts(lines@).len() == lines@.len());
    }
    let line: usize = head.len() - 1;
    let col: usize = text::count_chars(head[line].as_str());
    let above = make_rows(&lines, line, w);
    let segs = md::wrap_plain(lines[line].as_str(), w);
    let ghost sv = scan::texts(segs@);
    proof {
        assert(sv.len() == segs@.len());
        assert(caret(s, b, w as nat) == (
            above@.len() + find_row(sv, col as int, 0).0,
            find_row(sv, col as int, 0).1,
        ));
    }
    let all = make_rows(&lines, lines.len(), w);
    proof {
        assert(scan::texts(lines@).take(lines@.len() as int) =~= scan::texts(lines@));
    }
    let total: usize = all.len();
    let mut i: usize = 0;
    let mut left: usize = col;
    while i < segs.len()
        invariant
            sv == scan::texts(segs@),
            sv.len() == segs@.len(),
            i <= segs.len(),
            find_row(sv, left as int, i as int) == find_row(sv, col as int, 0),
            above@.len() + find_row(sv, col as int, 0).0 < total,
            caret(s, b, w as nat) == (
                above@.len() + find_row(sv, col as int, 0).0,
                find_row(sv, col as int, 0).1,
            ),
            s == input@,
            b == cursor,
        decreases segs.len() - i,
    {
        let n: usize = text::count_chars(segs[i].as_str());
        if left <= n {
            return (above.len() + i, left);
        }
        left = left - n;
        i += 1;
    }
    let last: usize = if segs.len() == 0 {
        0
    } else {
        segs.len() - 1
    };
    (above.len() + last, 0)
}

fn mark_style() -> (r: Style)
    ensures
        r == cursor_style(),
{
    Style::of(Color::Black).on_bg(Color::Cyan).add_modifier(Modifier::Bold)
}

fn draw_marked(spans: &mut Vec<Span>, seg: &str, col: usize)
    ensures
        style::span_views(final(spans)@) == style::span_views(old(spans)@) + marked(
            seg@,
            col as int,
        ) + tail_mark(seg@, col as int),
{
    let v = text::chars_of(seg);
    let ghost start = style::span_views(old(spans)@);
    let mut i: usize = 0;
    proof {
        assert(seg@.take(0) =~= Seq::<char>::empty());
        assert(start + marked(seg@.take(0), col as int) =~= start);
    }
    while i < v.len()
        invariant
            v@ == seg@,
            i <= v.len(),
            style::span_views(spans@) == start + marked(seg@.take(i as int), col as int),
        decreases v.len() - i,
    {
        proof {
            assert(seg@.take(i + 1).drop_last() =~= seg@.take(i as int));
        }
        let st = if i == col {
            mark_style()
        } else {
            Style::new()
        };
        style::push_span(spans, text::of_char(v[i]), st);
        proof {
            assert(style::span_views(spans@) =~= start + marked(seg@.take(i + 1), col as int));
        }
        i += 1;
    }
    proof {
        assert(seg@.take(i as int) =~= seg@);
    }
    if col >= v.len() {
        let t = if v.len() == 0 {
            " "
        } else {
            "▍"
        };
        style::push_span(spans, text::copy(t), mark_style());
    }
}

fn draw_row(
    row: &str,
    top: bool,
    label: &str,
    here: bool,
    col: usize,
    ghost_text: Option<&str>,
) -> (spans: Vec<Span>)
    ensures
        style::span_views(spans@) == row_line(
            row@,
            top,
            label@,
            here,
            col as int,
            opt_text(ghost_text),
        ),
{
    let (first, next) = input_prefix(label);
    let mut spans = style::no_spans();
    let prefix = if top {
        first
    } else {
        next
    };
    style::push_span(&mut spans, prefix, Style::bold_of(Color::Cyan));
    if !here {
        style::push_span(&mut spans, text::copy(row), Style::new());
        return spans;
    }
    draw_marked(&mut spans, row, col);
    if let Some(g) = ghost_text {
        if !g.is_empty() {
            style::push_span(&mut spans, text::copy(g), Style::of(Color::DarkGray));
        }
    }
    spans
}

/// Draws the text under the cursor: at most `max_rows` rows of it, the cursor's
/// among them, and behind the cursor the preview that is given.
pub fn render_input(
    input: &str,
    cursor: usize,
    label: &str,
    max_rows: usize,
    width: u16,
    ghost_text: Option<&str>,
) -> (lines: Vec<Line>)
    ensures
        style::line_views(lines@) == box_lines(
            input@,
            cursor as nat,
            label@,
            max_rows as nat,
            width,
            opt_text(ghost_text),
        ),
{
    let n: usize = editor::length(input);
    let b: usize = if cursor <= n {
        cursor
    } else {
        n
    };
    let (first, _next) = input_prefix(label);
    let p: usize = text::count_chars(first.as_str()) % 65536;
    let w: u16 = if (width as usize) >= p + 4 {
        (width as usize - p) as u16
    } else {
        4
    };
    let (row, col) = place_cursor(input, b, w);
    let fs = scan::split(input, '\n');
    proof {
        assert(scan::texts(fs@).len() == fs@.len());
        assert(scan::texts(fs@).take(fs@.len() as int) =~= scan::texts(fs@));
        lemma_caret(input@, b as nat, w as nat);
    }
    let rs = make_rows(&fs, fs.len(), w);
    let ghost views = scan::texts(rs@);
    let total: usize = rs.len();
    let h: usize = if max_rows < total {
        max_rows
    } else {
        total
    };
    let want: usize = if row > h / 2 {
        row - h / 2
    } else {
        0
    };
    let most: usize = total - h;
    let from: usize = if want < most {
        want
    } else {
        most
    };
    let to: usize = from + h;
    let ghost at = (row as int, col as int);
    let mut out = style::no_lines();
    let mut i: usize = from;
    while i < to
        invariant
            from <= i <= to <= rs@.len(),
            views == scan::texts(rs@),
            views.len() == rs@.len(),
            at == (row as int, col as int),
            style::line_views(out@) == row_lines(
                views,
                from as int,
                i as int,
                label@,
                at,
                opt_text(ghost_text),
            ),
        decreases to - i,
    {
        let spans = draw_row(rs[i].as_str(), i == 0, label, i == row, col, ghost_text);
        style::push_line(&mut out, spans);
        i += 1;
    }
    out
}

// ------------------------------------------------------------------------ laws

/// The row that the cursor stands in is shown, wherever the cursor is, if any row
/// is.
pub proof fn law_cursor_is_shown(s: Seq<char>, b: nat, w: nat, max_rows: nat)
    requires
        max_rows > 0,
    ensures
        ({
            let total = text_rows(s, w).len();
            let h = window_height(total, max_rows);
            let row = caret(s, b, w).0;
            window_start(total, row, h) <= row < window_start(total, row, h) + h
        }),
{
    lemma_caret(s, b, w);
}

proof fn lemma_row_lines_len(
    rs: Seq<Seq<char>>,
    from: int,
    to: int,
    label: Seq<char>,
    at: (int, int),
    ghost_text: Option<Seq<char>>,
)
    requires
        from <= to,
    ensures
        row_lines(rs, from, to, label, at, ghost_text).len() == to - from,
    decreases to - from,
{
    if from < to {
        lemma_row_lines_len(rs, from, to - 1, label, at, ghost_text);
    }
}

/// The text is drawn in as many rows as are counted for it beforehand, or in as many
/// as there is room for.
pub proof fn law_height_is_as_counted(
    s: Seq<char>,
    b: nat,
    label: Seq<char>,
    max_rows: nat,
    width: u16,
    ghost_text: Option<Seq<char>>,
)
    ensures
        box_lines(s, b, label, max_rows, width, ghost_text).len() == window_height(
            row_count(s, body_width(label, width)),
            max_rows,
        ),
        row_count(s, body_width(label, width)) > 0,
{
    let w = body_width(label, width);
    let rs = text_rows(s, w);
    lemma_caret(s, editor::within(s, b), w);
    let at = caret(s, editor::within(s, b), w);
    let h = window_height(rs.len(), max_rows);
    let from = window_start(rs.len(), at.0, h);
    lemma_row_lines_len(rs, from, from + h, label, at, ghost_text);
}

} // verus!
