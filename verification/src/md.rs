//! Lightweight markdown: fenced code, headings, quotes, lists, rules, and inline
//! code, bold, italics and links, drawn as styled lines that are cut by display width.
use crate::ansi;
use crate::scan;
use crate::style;
use crate::style::{Color, Line, Modifier, Span, SpanView, Style};
use crate::text;
use vstd::prelude::*;

verus! {

// ------------------------------------------------------------------- wrapping

/// Segments that are full, and the one that is being filled.
#[verifier::ext_equal]
pub struct Wrap {
    pub done: Seq<Seq<char>>,
    pub cur: Seq<char>,
}

/// A segment is closed unless it is empty.
pub open spec fn close(s: Wrap) -> Seq<Seq<char>> {
    if s.cur.len() == 0 {
        s.done
    } else {
        s.done.push(s.cur)
    }
}

/// A character goes to the current segment, or to a new one where it does not
/// fit; a line feed closes the segment.
pub open spec fn wrap_step(s: Wrap, c: char, width: nat) -> Wrap {
    if c == '\n' {
        Wrap { done: close(s), cur: Seq::empty() }
    } else if text::width(s.cur) + text::char_width(c) > width && s.cur.len() > 0 {
        Wrap { done: s.done.push(s.cur), cur: seq![c] }
    } else {
        Wrap { done: s.done, cur: s.cur.push(c) }
    }
}

/// The segments behind the given text.
pub open spec fn wrap_state(s: Seq<char>, width: nat) -> Wrap
    decreases s.len(),
{
    if s.len() == 0 {
        Wrap { done: Seq::empty(), cur: Seq::empty() }
    } else {
        wrap_step(wrap_state(s.drop_last(), width), s.last(), width)
    }
}

/// A text, once stripped, cut at its line feeds and by display width. Empty
/// segments are left out; where the width is two columns or less, the text is cut
/// at its line feeds alone, and empty segments stay.
pub open spec fn wrapped(s: Seq<char>, width: nat) -> Seq<Seq<char>> {
    if width <= 2 {
        scan::fields(ansi::stripped(s), '\n')
    } else {
        close(wrap_state(ansi::stripped(s), width))
    }
}

/// Cuts a text by display width, without breaking a character.
pub fn wrap_plain(text: &str, width: u16) -> (r: Vec<String>)
    ensures
        scan::texts(r@) == wrapped(text@, width as nat),
{
    wrap_text(text, width)
}

/// Cuts a text by display width; line feeds in it cut as well.
fn wrap_text(text: &str, width: u16) -> (r: Vec<String>)
    ensures
        scan::texts(r@) == wrapped(text@, width as nat),
{
    let clean = ansi::strip(text);
    if width <= 2 {
        return scan::split(clean.as_str(), '\n');
    }
    let v = text::chars_of(clean.as_str());
    let mut out: Vec<String> = Vec::new();
    let mut cur = String::new();
    let mut empty = true;
    let mut used: u32 = 0;
    let mut i: usize = 0;
    proof {
        assert(v@.take(0) =~= Seq::<char>::empty());
        assert(scan::texts(out@) =~= Seq::<Seq<char>>::empty());
        assert(text::width(Seq::<char>::empty()) == 0);
    }
    while i < v.len()
        invariant
            2 < width,
            i <= v.len(),
            wrap_state(v@.take(i as int), width as nat) == (Wrap {
                done: scan::texts(out@),
                cur: cur@,
            }),
            empty == (cur@.len() == 0),
            used == text::width(cur@),
            used <= width,
        decreases v.len() - i,
    {
        let c = v[i];
        proof {
            assert(v@.take(i + 1).drop_last() =~= v@.take(i as int));
            assert(v@.take(i + 1).last() == c);
            assert(text::width(Seq::<char>::empty()) == 0);
            text::lemma_width_push(cur@, c);
            text::lemma_width_push(Seq::<char>::empty(), c);
            assert(Seq::<char>::empty().push(c) =~= seq![c]);
        }
        if c == '\n' {
            if !empty {
                scan::push_text(&mut out, cur);
                cur = String::new();
                empty = true;
                used = 0;
            } else {
                proof {
                    assert(cur@ =~= Seq::<char>::empty());
                }
            }
        } else {
            let w: u32 = text::wc(c) as u32;
            if used + w > width as u32 && !empty {
                scan::push_text(&mut out, cur);
                cur = String::new();
                used = 0;
            }
            cur.push(c);
            used = used + w;
            empty = false;
        }
        i += 1;
    }
    proof {
        assert(v@.take(i as int) =~= v@);
    }
    if !empty {
        scan::push_text(&mut out, cur);
    }
    out
}

proof fn lemma_joined_push(ts: Seq<Seq<char>>, t: Seq<char>)
    ensures
        ansi::joined(ts.push(t)) == ansi::joined(ts) + t,
{
    assert(ts.push(t).drop_last() =~= ts);
}

proof fn lemma_close_joined(s: Wrap)
    ensures
        ansi::joined(close(s)) == ansi::joined(s.done) + s.cur,
{
    if s.cur.len() == 0 {
        assert(ansi::joined(s.done) + s.cur =~= ansi::joined(s.done));
    } else {
        lemma_joined_push(s.done, s.cur);
    }
}

proof fn lemma_wrap_state(s: Seq<char>, width: nat)
    requires
        width > 2,
    ensures
        ansi::joined(close(wrap_state(s, width))) == ansi::joined(scan::fields(s, '\n')),
        text::width(wrap_state(s, width).cur) <= width,
        forall|i: int|
            0 <= i < wrap_state(s, width).done.len() ==> {
                &&& (#[trigger] wrap_state(s, width).done[i]).len() > 0
                &&& text::width(wrap_state(s, width).done[i]) <= width
            },
    decreases s.len(),
{
    let st = wrap_state(s, width);
    lemma_close_joined(st);
    assert(text::width(Seq::<char>::empty()) == 0);
    if s.len() == 0 {
        let f = scan::fields(s, '\n');
        assert(f.drop_last() =~= Seq::<Seq<char>>::empty());
        assert(ansi::joined(Seq::<Seq<char>>::empty()) == Seq::<char>::empty());
        assert(ansi::joined(f) =~= Seq::<char>::empty());
        assert(ansi::joined(close(st)) =~= Seq::<char>::empty());
    } else {
        let t = s.drop_last();
        let c = s.last();
        let q = wrap_state(t, width);
        let f = scan::fields(t, '\n');
        lemma_wrap_state(t, width);
        lemma_close_joined(q);
        scan::lemma_fields_nonempty(t, '\n');
        text::lemma_width_push(q.cur, c);
        text::lemma_width_push(Seq::<char>::empty(), c);
        assert(Seq::<char>::empty().push(c) =~= seq![c]);
        if c == '\n' {
            lemma_joined_push(f, Seq::<char>::empty());
            assert(ansi::joined(f) + Seq::<char>::empty() =~= ansi::joined(f));
            assert(ansi::joined(close(q)) + Seq::<char>::empty() =~= ansi::joined(close(q)));
        } else {
            lemma_joined_push(f.drop_last(), f.last().push(c));
            assert(ansi::joined(f.drop_last()) + f.last().push(c) =~= ansi::joined(f).push(c));
            if text::width(q.cur) + text::char_width(c) > width && q.cur.len() > 0 {
                lemma_joined_push(q.done, q.cur);
                assert(ansi::joined(st.done) + st.cur =~= ansi::joined(close(q)).push(c));
            } else {
                assert(ansi::joined(st.done) + st.cur =~= ansi::joined(close(q)).push(c));
            }
        }
    }
}

/// Cutting a text loses nothing but its line feeds and what [`ansi::strip`] takes
/// out, and adds nothing.
pub proof fn law_wrap_keeps_text(s: Seq<char>, width: nat)
    ensures
        ansi::joined(wrapped(s, width)) == ansi::joined(scan::fields(ansi::stripped(s), '\n')),
{
    if width > 2 {
        lemma_wrap_state(ansi::stripped(s), width);
    }
}

/// No segment is empty or wider than the given width, unless that is two columns
/// or less.
pub proof fn law_wrap_fits(s: Seq<char>, width: nat, i: int)
    requires
        width > 2,
        0 <= i < wrapped(s, width).len(),
    ensures
        0 < wrapped(s, width)[i].len(),
        text::width(wrapped(s, width)[i]) <= width,
{
    lemma_wrap_state(ansi::stripped(s), width);
}

/// Whether a segment has no room for the first character of the next.
pub open spec fn full_at(seg: Seq<char>, next: Seq<char>, width: nat) -> bool {
    text::width(seg) + text::char_width(next[0]) > width
}

proof fn lemma_wrap_greedy(s: Seq<char>, width: nat)
    requires
        width > 2,
        !s.contains('\n'),
    ensures
        wrap_state(s, width).done.len() > 0 ==> wrap_state(s, width).cur.len() > 0,
        forall|i: int|
            0 <= i < wrap_state(s, width).done.len() ==> full_at(
                #[trigger] close(wrap_state(s, width))[i],
                close(wrap_state(s, width))[i + 1],
                width,
            ),
    decreases s.len(),
{
    if s.len() > 0 {
        let t = s.drop_last();
        assert forall|c: char| t.contains(c) implies s.contains(c) by {
            let i = choose|i: int| 0 <= i < t.len() && t[i] == c;
            assert(s[i] == c);
        }
        lemma_wrap_greedy(t, width);
        assert(s[s.len() - 1] == s.last());
        let q = wrap_state(t, width);
        let st = wrap_state(s, width);
        assert forall|i: int| 0 <= i < st.done.len() implies full_at(
            #[trigger] close(st)[i],
            close(st)[i + 1],
            width,
        ) by {
            if i < q.done.len() {
                assert(close(q)[i] == close(st)[i]);
                assert(close(q)[i + 1][0] == close(st)[i + 1][0]);
            }
        }
    }
}

/// Segments are filled as far as they go: within a line, a new one begins only with a
/// character that no longer fits behind the one before.
pub proof fn law_wrap_is_greedy(s: Seq<char>, width: nat, i: int)
    requires
        width > 2,
        !ansi::stripped(s).contains('\n'),
        0 <= i,
        i + 1 < wrapped(s, width).len(),
    ensures
        full_at(wrapped(s, width)[i], wrapped(s, width)[i + 1], width),
{
    lemma_wrap_greedy(ansi::stripped(s), width);
}

/// A line feed parts the segments: those of two lines are those of the first, and
/// behind them those of the second.
pub proof fn law_lines_are_cut_apart(a: Seq<char>, b: Seq<char>, width: nat)
    ensures
        ({
            let both = wrap_state(a.push('\n') + b, width);
            let second = wrap_state(b, width);
            &&& both.done == close(wrap_state(a, width)) + second.done
            &&& both.cur == second.cur
            &&& close(both) == close(wrap_state(a, width)) + close(second)
        }),
    decreases b.len(),
{
    let first = close(wrap_state(a, width));
    let both = a.push('\n') + b;
    if b.len() == 0 {
        assert(both =~= a.push('\n'));
        assert(a.push('\n').drop_last() =~= a);
        assert(first + Seq::<Seq<char>>::empty() =~= first);
    } else {
        law_lines_are_cut_apart(a, b.drop_last(), width);
        assert(both.drop_last() =~= a.push('\n') + b.drop_last());
        let q = wrap_state(b.drop_last(), width);
        assert((first + q.done).push(q.cur) =~= first + q.done.push(q.cur));
    }
    let x = wrap_state(both, width);
    assert((first + wrap_state(b, width).done).push(x.cur) =~= first + wrap_state(
        b,
        width,
    ).done.push(x.cur));
}

// -------------------------------------------------------------------- parsing

/// What a line of markdown is.
#[derive(Clone, Copy, Debug, PartialEq, Eq, Structural)]
pub enum Kind {
    Normal,
    Heading(u8),
    Quote,
    List,
    Hr,
    Code,
    Empty,
}

/// One logical line of markdown.
#[derive(Debug)]
pub struct Row {
    pub kind: Kind,
    pub text: String,
}

/// What a row holds.
#[verifier::ext_equal]
pub struct RowView {
    pub kind: Kind,
    pub text: Seq<char>,
}

impl View for Row {
    type V = RowView;

    open spec fn view(&self) -> RowView {
        RowView { kind: self.kind, text: self.text@ }
    }
}

/// The rows of a list.
pub open spec fn row_views(v: Seq<Row>) -> Seq<RowView> {
    v.map_values(|r: Row| r@)
}

fn push_row(v: &mut Vec<Row>, kind: Kind, text: String)
    ensures
        row_views(final(v)@) == row_views(old(v)@).push(RowView { kind, text: text@ }),
{
    let r = Row { kind, text };
    v.push(r);
    proof {
        assert(row_views(v@) =~= row_views(old(v)@).push(r@));
    }
}

/// The text without the `\r`s at its end.
pub open spec fn without_crs(s: Seq<char>) -> Seq<char>
    decreases s.len(),
{
    if s.len() > 0 && s.last() == '\r' {
        without_crs(s.drop_last())
    } else {
        s
    }
}

fn drop_crs(s: &str) -> (r: String)
    ensures
        r@ == without_crs(s@),
{
    let v = text::chars_of(s);
    let mut n: usize = v.len();
    proof {
        assert(v@.take(n as int) =~= v@);
    }
    while n > 0 && v[n - 1] == '\r'
        invariant
            n <= v.len(),
            without_crs(v@.take(n as int)) == without_crs(v@),
        decreases n,
    {
        proof {
            assert(v@.take(n as int).drop_last() =~= v@.take(n - 1));
        }
        n = n - 1;
    }
    proof {
        assert(v@.subrange(0, n as int) =~= v@.take(n as int));
    }
    text::string_of(&v, 0, n)
}

/// How many `#` the text starts with.
pub open spec fn hashes(s: Seq<char>, i: int) -> int
    decreases s.len() - i,
{
    if 0 <= i < s.len() && s[i] == '#' {
        hashes(s, i + 1)
    } else {
        i
    }
}

fn count_hashes(v: &Vec<char>) -> (n: usize)
    ensures
        n == hashes(v@, 0),
        n <= v.len(),
{
    let mut n: usize = 0;
    while n < v.len() && v[n] == '#'
        invariant
            n <= v.len(),
            hashes(v@, n as int) == hashes(v@, 0),
        decreases v.len() - n,
    {
        n += 1;
    }
    n
}

/// The level of a heading: one to six `#` with something else behind them.
pub open spec fn heading_level(s: Seq<char>) -> Option<u8> {
    let n = hashes(s, 0);
    if 1 <= n <= 6 && scan::trimmed_start(s.skip(n)).len() > 0 {
        Some(n as u8)
    } else {
        None
    }
}

/// The level of a heading.
fn parse_heading(s: &str) -> (r: Option<u8>)
    ensures
        r == heading_level(s@),
{
    let v = text::chars_of(s);
    let n: usize = count_hashes(&v);
    if n < 1 || n > 6 {
        return None;
    }
    let tail = text::string_of(&v, n, v.len());
    proof {
        assert(tail@ =~= s@.skip(n as int));
    }
    let body = scan::trim_start(tail.as_str());
    if text::count_chars(body.as_str()) == 0 {
        None
    } else {
        Some(n as u8)
    }
}

/// A rule: three or more of `-`, `=` and `_`, and nothing else.
pub open spec fn is_rule(s: Seq<char>) -> bool {
    s.len() >= 3 && forall|i: int|
        0 <= i < s.len() ==> (#[trigger] s[i] == '-' || s[i] == '=' || s[i] == '_')
}

fn check_rule(v: &Vec<char>) -> (r: bool)
    ensures
        r == is_rule(v@),
{
    if v.len() < 3 {
        return false;
    }
    let mut i: usize = 0;
    while i < v.len()
        invariant
            i <= v.len(),
            forall|k: int| 0 <= k < i ==> (#[trigger] v@[k] == '-' || v@[k] == '=' || v@[k] == '_'),
        decreases v.len() - i,
    {
        if !(v[i] == '-' || v[i] == '=' || v[i] == '_') {
            return false;
        }
        i += 1;
    }
    true
}

/// How many digits stand from `i` on, as the position behind them.
pub open spec fn past_digits(s: Seq<char>, i: int) -> int
    decreases s.len() - i,
{
    if 0 <= i < s.len() && text::is_digit(s[i]) {
        past_digits(s, i + 1)
    } else {
        i
    }
}

/// A list item: `-`, `*` or `+` and a space, or a number, `.` or `)` and a space.
pub open spec fn is_item(s: Seq<char>) -> bool {
    let d = past_digits(s, 0);
    ||| s.len() >= 2 && (s[0] == '-' || s[0] == '*' || s[0] == '+') && s[1] == ' '
    ||| d > 0 && d + 1 < s.len() && (s[d] == '.' || s[d] == ')') && s[d + 1] == ' '
}

fn is_list_item(v: &Vec<char>) -> (r: bool)
    ensures
        r == is_item(v@),
{
    if v.len() >= 2 && (v[0] == '-' || v[0] == '*' || v[0] == '+') && v[1] == ' ' {
        return true;
    }
    let mut d: usize = 0;
    while d < v.len() && text::char_is_digit(v[d])
        invariant
            d <= v.len(),
            past_digits(v@, d as int) == past_digits(v@, 0),
        decreases v.len() - d,
    {
        d += 1;
    }
    d > 0 && v.len() - d > 1 && (v[d] == '.' || v[d] == ')') && v[d + 1] == ' '
}

/// Whether the line opens or closes a code block.
pub open spec fn is_fence(s: Seq<char>) -> bool {
    "```"@.is_prefix_of(scan::trimmed(s))
}

/// The row of a line that stands in no code block and is no fence.
pub open spec fn row_of(line: Seq<char>) -> RowView {
    let t = scan::trimmed(line);
    if t.len() == 0 {
        RowView { kind: Kind::Empty, text: Seq::empty() }
    } else if heading_level(t) is Some {
        RowView { kind: Kind::Heading(heading_level(t)->0), text: t }
    } else if is_rule(t) {
        RowView { kind: Kind::Hr, text: Seq::empty() }
    } else if t[0] == '>' {
        RowView { kind: Kind::Quote, text: scan::trimmed_start(t.skip(1)) }
    } else if is_item(t) {
        RowView { kind: Kind::List, text: line }
    } else {
        RowView { kind: Kind::Normal, text: line }
    }
}

/// The rows so far, and whether a code block is open.
#[verifier::ext_equal]
pub struct Parsed {
    pub rows: Seq<RowView>,
    pub code: bool,
}

/// What one more line does.
pub open spec fn parse_step(p: Parsed, raw: Seq<char>) -> Parsed {
    let line = without_crs(raw);
    if p.code && is_fence(line) {
        Parsed { rows: p.rows, code: false }
    } else if p.code {
        Parsed { rows: p.rows.push(RowView { kind: Kind::Code, text: line }), code: true }
    } else if is_fence(line) {
        Parsed { rows: p.rows.push(RowView { kind: Kind::Empty, text: Seq::empty() }), code: true }
    } else {
        Parsed { rows: p.rows.push(row_of(line)), code: false }
    }
}

/// The rows behind the given lines.
pub open spec fn parse_lines(ls: Seq<Seq<char>>) -> Parsed
    decreases ls.len(),
{
    if ls.len() == 0 {
        Parsed { rows: Seq::empty(), code: false }
    } else {
        parse_step(parse_lines(ls.drop_last()), ls.last())
    }
}

/// The rows of a text. A code block that is left open is followed by an empty row.
pub open spec fn parsed(s: Seq<char>) -> Seq<RowView> {
    let p = parse_lines(scan::line_list(s));
    if p.code {
        p.rows.push(RowView { kind: Kind::Empty, text: Seq::empty() })
    } else {
        p.rows
    }
}

fn push_line_row(rows: &mut Vec<Row>, line: String)
    ensures
        row_views(final(rows)@) == row_views(old(rows)@).push(row_of(line@)),
{
    let t = scan::trim(line.as_str());
    let v = text::chars_of(t.as_str());
    if v.len() == 0 {
        push_row(rows, Kind::Empty, String::new());
        return;
    }
    match parse_heading(t.as_str()) {
        Some(h) => {
            push_row(rows, Kind::Heading(h), t);
            return;
        },
        None => {},
    }
    if check_rule(&v) {
        push_row(rows, Kind::Hr, String::new());
    } else if v[0] == '>' {
        let rest = text::string_of(&v, 1, v.len());
        proof {
            assert(rest@ =~= t@.skip(1));
        }
        push_row(rows, Kind::Quote, scan::trim_start(rest.as_str()));
    } else if is_list_item(&v) {
        push_row(rows, Kind::List, line);
    } else {
        push_row(rows, Kind::Normal, line);
    }
}

/// Cuts a markdown text into logical lines.
pub fn parse(text: &str) -> (r: Vec<Row>)
    ensures
        row_views(r@) == parsed(text@),
{
    let ls = scan::lines(text);
    let ghost lv = scan::line_list(text@);
    let mut rows: Vec<Row> = Vec::new();
    let mut code = false;
    let mut i: usize = 0;
    proof {
        assert(lv.take(0) =~= Seq::<Seq<char>>::empty());
        assert(row_views(rows@) =~= Seq::<RowView>::empty());
    }
    while i < ls.len()
        invariant
            lv == scan::texts(ls@),
            i <= ls.len(),
            parse_lines(lv.take(i as int)) == (Parsed { rows: row_views(rows@), code }),
        decreases ls.len() - i,
    {
        proof {
            assert(lv.take(i + 1).drop_last() =~= lv.take(i as int));
            assert(lv.take(i + 1).last() == ls@[i as int]@);
        }
        let line = drop_crs(ls[i].as_str());
        let fence = scan::starts_with(scan::trim(line.as_str()).as_str(), "```");
        if code && fence {
            code = false;
        } else if code {
            push_row(&mut rows, Kind::Code, line);
        } else if fence {
            push_row(&mut rows, Kind::Empty, String::new());
            code = true;
        } else {
            push_line_row(&mut rows, line);
        }
        i += 1;
    }
    proof {
        assert(lv.take(i as int) =~= lv);
    }
    if code {
        push_row(&mut rows, Kind::Empty, String::new());
    }
    rows
}

// --------------------------------------------------------------------- inline

/// The style that the text of a row starts from.
pub open spec fn base_style(kind: Kind) -> Style {
    match kind {
        Kind::Heading(_) => style::bold(Color::Cyan),
        Kind::Quote => style::colored(Color::Blue).with_on(Modifier::Italic),
        _ => style::colored(Color::White),
    }
}

fn inline_style(kind: Kind) -> (r: Style)
    ensures
        r == base_style(kind),
{
    match kind {
        Kind::Heading(_) => Style::bold_of(Color::Cyan),
        Kind::Quote => Style::of(Color::Blue).add_modifier(Modifier::Italic),
        _ => Style::of(Color::White),
    }
}

/// The first position at or behind `i` at which `**` stands; -1 where none does.
pub open spec fn find_stars(s: Seq<char>, i: int) -> int
    decreases s.len() - i,
{
    if i < 0 || i + 1 >= s.len() {
        -1
    } else if s[i] == '*' && s[i + 1] == '*' {
        i
    } else {
        find_stars(s, i + 1)
    }
}

fn find_double(v: &Vec<char>, i: usize) -> (r: Option<usize>)
    ensures
        match r {
            Some(k) => k == find_stars(v@, i as int) && i <= k < v.len() - 1,
            None => find_stars(v@, i as int) == -1,
        },
{
    if i >= v.len() {
        return None;
    }
    let mut k: usize = i;
    while k < v.len() - 1
        invariant
            i <= k,
            k < v.len(),
            find_stars(v@, k as int) == find_stars(v@, i as int),
        decreases v.len() - k,
    {
        if v[k] == '*' && v[k + 1] == '*' {
            return Some(k);
        }
        k += 1;
    }
    None
}

/// The style of inline code.
pub open spec fn code_style(base: Style) -> Style {
    Style { fg: Some(Color::Yellow), ..base }
}

/// The style of the address behind the text of a link.
pub open spec fn address_style(base: Style) -> Style {
    Style { fg: Some(Color::DarkGray), ..base }
}

/// What stands at a position of a text with inline markdown.
pub enum Piece {
    /// An ordinary character.
    Plain,
    /// `` `code` ``, with the position of the closing mark.
    Code(int),
    /// `**bold**`, with the position of the closing marks.
    Bold(int),
    /// `*italics*`, with the position of the closing mark.
    Italic(int),
    /// `[text](address)`, with the positions of `]` and `)`.
    Link(int, int),
}

/// Where a link that begins at `i` ends: the positions of its `]`, which `(` follows,
/// and its `)`.
pub open spec fn link_end(s: Seq<char>, i: int) -> Option<(int, int)> {
    let k = scan::find_from(s, ']', i + 1);
    let m = scan::find_from(s, ')', k + 2);
    if k >= 0 && k + 1 < s.len() && s[k + 1] == '(' && m >= 0 {
        Some((k, m))
    } else {
        None
    }
}

/// What stands at the position `i`. A mark that is not closed is ordinary text.
pub open spec fn piece_at(s: Seq<char>, i: int) -> Piece {
    if s[i] == '`' && scan::find_from(s, '`', i + 1) >= 0 {
        Piece::Code(scan::find_from(s, '`', i + 1))
    } else if s[i] == '*' && i + 1 < s.len() && s[i + 1] == '*' && find_stars(s, i + 2) >= 0 {
        Piece::Bold(find_stars(s, i + 2))
    } else if s[i] == '*' && scan::find_from(s, '*', i + 1) >= 0 {
        Piece::Italic(scan::find_from(s, '*', i + 1))
    } else if s[i] == '[' {
        match link_end(s, i) {
            Some((k, m)) => Piece::Link(k, m),
            None => Piece::Plain,
        }
    } else {
        Piece::Plain
    }
}

/// The spans with the plain text so far closed.
pub open spec fn flushed(spans: Seq<SpanView>, plain: Seq<char>, base: Style) -> Seq<SpanView> {
    if plain.len() == 0 {
        spans
    } else {
        spans.push(style::sv(plain, base))
    }
}

/// The spans of the text from `i` on, behind the spans and the plain text so far.
pub open spec fn inline_from(
    s: Seq<char>,
    i: int,
    spans: Seq<SpanView>,
    plain: Seq<char>,
    base: Style,
) -> Seq<SpanView>
    decreases s.len() - i,
{
    if i < 0 || i >= s.len() {
        flushed(spans, plain, base)
    } else {
        let f = flushed(spans, plain, base);
        match piece_at(s, i) {
            Piece::Plain => inline_from(s, i + 1, spans, plain.push(s[i]), base),
            Piece::Code(k) => if i < k < s.len() {
                let span = style::sv(s.subrange(i + 1, k), code_style(base));
                inline_from(s, k + 1, f.push(span), Seq::empty(), base)
            } else {
                f
            },
            Piece::Bold(k) => if i + 1 < k < s.len() - 1 {
                let span = style::sv(s.subrange(i + 2, k), base.with_on(Modifier::Bold));
                inline_from(s, k + 2, f.push(span), Seq::empty(), base)
            } else {
                f
            },
            Piece::Italic(k) => if i < k < s.len() {
                let span = style::sv(s.subrange(i + 1, k), base.with_on(Modifier::Italic));
                inline_from(s, k + 1, f.push(span), Seq::empty(), base)
            } else {
                f
            },
            Piece::Link(k, m) => if i < k && k + 1 < m < s.len() {
                let shown = style::sv(s.subrange(i + 1, k), base.with_on(Modifier::Underlined));
                let address = style::sv(
                    " ("@ + s.subrange(k + 2, m) + ")"@,
                    address_style(base),
                );
                inline_from(s, m + 1, f.push(shown).push(address), Seq::empty(), base)
            } else {
                f
            },
        }
    }
}

/// The spans of a text with inline code, bold text, italics and links.
pub open spec fn inlined(s: Seq<char>, base: Style) -> Seq<SpanView> {
    inline_from(s, 0, Seq::empty(), Seq::empty(), base)
}

fn flush(spans: &mut Vec<Span>, plain: String, base: Style)
    ensures
        style::span_views(final(spans)@) == flushed(
            style::span_views(old(spans)@),
            plain@,
            base,
        ),
{
    if text::count_chars(plain.as_str()) > 0 {
        style::push_span(spans, plain, base);
    }
}

fn find_link(v: &Vec<char>, i: usize) -> (r: Option<(usize, usize)>)
    requires
        i < v.len(),
    ensures
        match r {
            Some((k, m)) => {
                &&& link_end(v@, i as int) == Some((k as int, m as int))
                &&& i < k
                &&& k + 1 < m < v.len()
            },
            None => link_end(v@, i as int) is None,
        },
{
    if let Some(k) = scan::find_char(v, ']', i + 1) {
        if v.len() - k > 1 && v[k + 1] == '(' {
            if let Some(m) = scan::find_char(v, ')', k + 2) {
                return Some((k, m));
            }
        }
    }
    None
}

/// Takes inline code, bold text, italics and links out of a text. Of a link, the
/// address is shown behind the text.
pub fn inline(text: &str, base: Style) -> (r: Vec<Span>)
    ensures
        style::span_views(r@) == inlined(text@, base),
{
    let v = text::chars_of(text);
    let mut spans = style::no_spans();
    let mut plain = String::new();
    let mut i: usize = 0;
    while i < v.len()
        invariant
            v@ == text@,
            i <= v.len(),
            inline_from(text@, i as int, style::span_views(spans@), plain@, base) == inlined(
                text@,
                base,
            ),
        decreases v.len() - i,
    {
        let c = v[i];
        let mut next: usize = i;
        if c == '`' {
            match scan::find_char(&v, '`', i + 1) {
                Some(k) => {
                    flush(&mut spans, plain, base);
                    plain = String::new();
                    let mut st = base;
                    st.fg = Some(Color::Yellow);
                    style::push_span(&mut spans, text::string_of(&v, i + 1, k), st);
                    next = k + 1;
                },
                None => {},
            }
        } else if c == '*' {
            let double = if v.len() - i > 1 && v[i + 1] == '*' {
                find_double(&v, i + 2)
            } else {
                None
            };
            match double {
                Some(k) => {
                    flush(&mut spans, plain, base);
                    plain = String::new();
                    style::push_span(
                        &mut spans,
                        text::string_of(&v, i + 2, k),
                        base.add_modifier(Modifier::Bold),
                    );
                    next = k + 2;
                },
                None => {
                    match scan::find_char(&v, '*', i + 1) {
                        Some(k) => {
                            flush(&mut spans, plain, base);
                            plain = String::new();
                            style::push_span(
                                &mut spans,
                                text::string_of(&v, i + 1, k),
                                base.add_modifier(Modifier::Italic),
                            );
                            next = k + 1;
                        },
                        None => {},
                    }
                },
            }
        } else if c == '[' {
            match find_link(&v, i) {
                Some((k, m)) => {
                    flush(&mut spans, plain, base);
                    plain = String::new();
                    style::push_span(
                        &mut spans,
                        text::string_of(&v, i + 1, k),
                        base.add_modifier(Modifier::Underlined),
                    );
                    let address = text::string_of(&v, k + 2, m);
                    let mut st = base;
                    st.fg = Some(Color::DarkGray);
                    style::push_span(&mut spans, text::cat3(" (", address.as_str(), ")"), st);
                    next = m + 1;
                },
                None => {},
            }
        }
        if next == i {
            plain.push(c);
            next = i + 1;
        }
        i = next;
    }
    flush(&mut spans, plain, base);
    spans
}

// -------------------------------------------------------------------- drawing

/// The mark in front of a heading.
pub open spec fn marker(level: u8) -> Seq<char> {
    if level <= 1 {
        "■ "@
    } else if level == 2 {
        "• "@
    } else {
        "· "@
    }
}

fn heading_marker(level: u8) -> (r: String)
    ensures
        r@ == marker(level),
        text::width(r@) <= 4,
{
    proof {
        reveal_strlit("■ ");
        reveal_strlit("• ");
        reveal_strlit("· ");
        text::lemma_width_bound(marker(level));
    }
    if level <= 1 {
        text::copy("■ ")
    } else if level == 2 {
        text::copy("• ")
    } else {
        text::copy("· ")
    }
}

/// `width - n`, but no less than `least`.
pub open spec fn room(width: nat, n: nat, least: nat) -> nat {
    if width >= n + least {
        (width - n) as nat
    } else {
        least
    }
}

/// The lines of a heading: its mark in front of the first, the rest set in as far.
pub open spec fn heading_lines(t: Seq<char>, level: u8, width: nat) -> Seq<Seq<SpanView>> {
    let base = base_style(Kind::Heading(level));
    let mark = marker(level);
    let body = scan::trimmed_start(t.skip(hashes(t, 0)));
    wrapped(body, room(width, text::width(mark), 8)).map(
        |i: int, s: Seq<char>|
            style::one(
                if i == 0 {
                    mark
                } else {
                    text::repeated(' ', text::width(mark))
                },
                base,
            ) + inlined(s, base),
    )
}

/// The lines of a quote.
pub open spec fn quote_lines(t: Seq<char>, width: nat) -> Seq<Seq<SpanView>> {
    let base = base_style(Kind::Quote);
    wrapped(t, room(width, 2, 0)).map_values(
        |s: Seq<char>| style::one("│ "@, base) + inlined(s, base),
    )
}

/// The first position at or behind `i` that holds white space, or the end.
pub open spec fn find_white(s: Seq<char>, i: int) -> int
    decreases s.len() - i,
{
    if 0 <= i < s.len() && !text::is_white(s[i]) {
        find_white(s, i + 1)
    } else {
        i
    }
}

/// How far the text of a list item is set in, at the most.
pub open spec fn item_indent(mark: Seq<char>) -> nat {
    if text::width(mark) > 3 {
        text::width(mark) + 3
    } else {
        6
    }
}

/// The lines of a list item: its mark in front of the first, the rest set in.
pub open spec fn item_lines(t: Seq<char>, width: nat) -> Seq<Seq<SpanView>> {
    let base = base_style(Kind::List);
    let body = scan::trimmed_start(t);
    let end = find_white(body, 0);
    let mark = body.take(if end < 4 {
        end
    } else {
        4
    });
    let segs = wrapped(scan::trimmed_start(body.skip(end)), room(width, item_indent(mark), 8));
    segs.map(
        |i: int, s: Seq<char>|
            style::one(
                if i == 0 {
                    "  "@ + mark + " "@
                } else {
                    "      "@
                },
                base,
            ) + inlined(s, base),
    )
}

/// The lines of a row, behind those of the rows in front of it.
pub open spec fn draw_row(
    out: Seq<Seq<SpanView>>,
    row: RowView,
    width: nat,
) -> Seq<Seq<SpanView>> {
    match row.kind {
        Kind::Empty => if out.len() == 0 {
            out
        } else {
            out.push(Seq::empty())
        },
        Kind::Hr => out.push(
            style::one(text::repeated('─', room(width, 2, 8)), style::colored(Color::DarkGray)),
        ),
        Kind::Code => out + wrapped(row.text, room(width, 2, 0)).map_values(
            |s: Seq<char>| style::one(s, style::colored(Color::Yellow)),
        ),
        Kind::Heading(level) => out + heading_lines(row.text, level, width),
        Kind::Quote => out + quote_lines(row.text, width),
        Kind::List => out + item_lines(row.text, width),
        Kind::Normal => out + wrapped(row.text, width).map_values(
            |s: Seq<char>| inlined(s, base_style(Kind::Normal)),
        ),
    }
}

/// The lines of the rows.
pub open spec fn draw_rows(rows: Seq<RowView>, width: nat) -> Seq<Seq<SpanView>>
    decreases rows.len(),
{
    if rows.len() == 0 {
        Seq::empty()
    } else {
        draw_row(draw_rows(rows.drop_last(), width), rows.last(), width)
    }
}

/// The lines without the empty ones in front.
pub open spec fn without_leading_blanks(ls: Seq<Seq<SpanView>>) -> Seq<Seq<SpanView>>
    decreases ls.len(),
{
    if ls.len() > 0 && ls[0].len() == 0 {
        without_leading_blanks(ls.skip(1))
    } else {
        ls
    }
}

/// The lines that a markdown text is drawn as.
pub open spec fn rendered(s: Seq<char>, width: nat) -> Seq<Seq<SpanView>> {
    without_leading_blanks(draw_rows(parsed(ansi::stripped(s)), width))
}

fn shrink(width: u16, n: u16, least: u16) -> (r: u16)
    requires
        n + least <= u16::MAX,
    ensures
        r == room(width as nat, n as nat, least as nat),
{
    if width >= n + least {
        width - n
    } else {
        least
    }
}

fn draw_heading(out: &mut Vec<Line>, t: &str, level: u8, width: u16)
    ensures
        style::line_views(final(out)@) == style::line_views(old(out)@) + heading_lines(
            t@,
            level,
            width as nat,
        ),
{
    let base = inline_style(Kind::Heading(level));
    let v = text::chars_of(t);
    let n: usize = count_hashes(&v);
    let tail = text::string_of(&v, n, v.len());
    proof {
        assert(tail@ =~= t@.skip(n as int));
    }
    let body = scan::trim_start(tail.as_str());
    let mark = heading_marker(level);
    let w: u16 = text::text_width(mark.as_str());
    let indent = text::repeat_char(' ', w as usize);
    let segs = wrap_text(body.as_str(), shrink(width, w, 8));
    let ghost q = heading_lines(t@, level, width as nat);
    let mut i: usize = 0;
    while i < segs.len()
        invariant
            base == base_style(Kind::Heading(level)),
            mark@ == marker(level),
            indent@ == text::repeated(' ', text::width(mark@)),
            scan::texts(segs@) == wrapped(
                scan::trimmed_start(t@.skip(hashes(t@, 0))),
                room(width as nat, text::width(mark@), 8),
            ),
            q == heading_lines(t@, level, width as nat),
            i <= segs.len(),
            style::line_views(out@) == style::line_views(old(out)@) + q.take(i as int),
        decreases segs.len() - i,
    {
        let mut spans = style::no_spans();
        let head = if i == 0 {
            mark.as_str()
        } else {
            indent.as_str()
        };
        style::push_span(&mut spans, text::copy(head), base);
        let more = inline(segs[i].as_str(), base);
        style::append_spans(&mut spans, more);
        proof {
            assert(segs@[i as int]@ == scan::texts(segs@)[i as int]);
            assert(q.take(i + 1) =~= q.take(i as int).push(q[i as int]));
        }
        style::push_line(out, spans);
        i += 1;
    }
    proof {
        assert(q.take(i as int) =~= q);
    }
}

fn draw_quote(out: &mut Vec<Line>, t: &str, width: u16)
    ensures
        style::line_views(final(out)@) == style::line_views(old(out)@) + quote_lines(
            t@,
            width as nat,
        ),
{
    let base = inline_style(Kind::Quote);
    let segs = wrap_text(t, shrink(width, 2, 0));
    let ghost q = quote_lines(t@, width as nat);
    let mut i: usize = 0;
    while i < segs.len()
        invariant
            base == base_style(Kind::Quote),
            scan::texts(segs@) == wrapped(t@, room(width as nat, 2, 0)),
            q == quote_lines(t@, width as nat),
            i <= segs.len(),
            style::line_views(out@) == style::line_views(old(out)@) + q.take(i as int),
        decreases segs.len() - i,
    {
        let mut spans = style::no_spans();
        style::push_span(&mut spans, text::copy("│ "), base);
        let more = inline(segs[i].as_str(), base);
        style::append_spans(&mut spans, more);
        proof {
            assert(segs@[i as int]@ == scan::texts(segs@)[i as int]);
            assert(q.take(i + 1) =~= q.take(i as int).push(q[i as int]));
        }
        style::push_line(out, spans);
        i += 1;
    }
    proof {
        assert(q.take(i as int) =~= q);
    }
}

fn draw_item(out: &mut Vec<Line>, t: &str, width: u16)
    ensures
        style::line_views(final(out)@) == style::line_views(old(out)@) + item_lines(
            t@,
            width as nat,
        ),
{
    let base = inline_style(Kind::List);
    let body = scan::trim_start(t);
    let v = text::chars_of(body.as_str());
    let mut end: usize = 0;
    while end < v.len() && !text::char_is_white(v[end])
        invariant
            end <= v.len(),
            find_white(v@, end as int) == find_white(v@, 0),
        decreases v.len() - end,
    {
        end += 1;
    }
    let cut: usize = if end < 4 {
        end
    } else {
        4
    };
    let mark = text::string_of(&v, 0, cut);
    let rest = text::string_of(&v, end, v.len());
    proof {
        assert(mark@ =~= body@.take(cut as int));
        assert(rest@ =~= body@.skip(end as int));
    }
    let content = scan::trim_start(rest.as_str());
    proof {
        text::lemma_width_bound(mark@);
    }
    let m: u16 = text::text_width(mark.as_str());
    let inset: u16 = if m > 3 {
        m + 3
    } else {
        6
    };
    let segs = wrap_text(content.as_str(), shrink(width, inset, 8));
    let ghost q = item_lines(t@, width as nat);
    let mut i: usize = 0;
    while i < segs.len()
        invariant
            base == base_style(Kind::List),
            q == item_lines(t@, width as nat),
            body@ == scan::trimmed_start(t@),
            end == find_white(body@, 0),
            cut == (if end < 4 {
                end
            } else {
                4
            }),
            mark@ == body@.take(cut as int),
            scan::texts(segs@) == wrapped(
                scan::trimmed_start(body@.skip(end as int)),
                room(width as nat, item_indent(mark@), 8),
            ),
            i <= segs.len(),
            style::line_views(out@) == style::line_views(old(out)@) + q.take(i as int),
        decreases segs.len() - i,
    {
        let mut spans = style::no_spans();
        if i == 0 {
            style::push_span(&mut spans, text::cat3("  ", mark.as_str(), " "), base);
        } else {
            style::push_span(&mut spans, text::copy("      "), base);
        }
        let more = inline(segs[i].as_str(), base);
        style::append_spans(&mut spans, more);
        proof {
            assert(segs@[i as int]@ == scan::texts(segs@)[i as int]);
            assert(q.take(i + 1) =~= q.take(i as int).push(q[i as int]));
        }
        style::push_line(out, spans);
        i += 1;
    }
    proof {
        assert(q.take(i as int) =~= q);
    }
}

fn draw_code(out: &mut Vec<Line>, t: &str, width: u16)
    ensures
        style::line_views(final(out)@) == draw_row(
            style::line_views(old(out)@),
            RowView { kind: Kind::Code, text: t@ },
            width as nat,
        ),
{
    let segs = wrap_text(t, shrink(width, 2, 0));
    let ghost q = wrapped(t@, room(width as nat, 2, 0)).map_values(
        |s: Seq<char>| style::one(s, style::colored(Color::Yellow)),
    );
    let mut i: usize = 0;
    while i < segs.len()
        invariant
            scan::texts(segs@) == wrapped(t@, room(width as nat, 2, 0)),
            q == wrapped(t@, room(width as nat, 2, 0)).map_values(
                |s: Seq<char>| style::one(s, style::colored(Color::Yellow)),
            ),
            i <= segs.len(),
            style::line_views(out@) == style::line_views(old(out)@) + q.take(i as int),
        decreases segs.len() - i,
    {
        style::push_text_line(out, segs[i].clone(), Style::of(Color::Yellow));
        proof {
            assert(segs@[i as int]@ == scan::texts(segs@)[i as int]);
            assert(q.take(i + 1) =~= q.take(i as int).push(q[i as int]));
        }
        i += 1;
    }
    proof {
        assert(q.take(i as int) =~= q);
    }
}

fn draw_normal(out: &mut Vec<Line>, t: &str, width: u16)
    ensures
        style::line_views(final(out)@) == draw_row(
            style::line_views(old(out)@),
            RowView { kind: Kind::Normal, text: t@ },
            width as nat,
        ),
{
    let base = inline_style(Kind::Normal);
    let segs = wrap_text(t, width);
    let ghost q = wrapped(t@, width as nat).map_values(
        |s: Seq<char>| inlined(s, base_style(Kind::Normal)),
    );
    let mut i: usize = 0;
    while i < segs.len()
        invariant
            base == base_style(Kind::Normal),
            scan::texts(segs@) == wrapped(t@, width as nat),
            q == wrapped(t@, width as nat).map_values(
                |s: Seq<char>| inlined(s, base_style(Kind::Normal)),
            ),
            i <= segs.len(),
            style::line_views(out@) == style::line_views(old(out)@) + q.take(i as int),
        decreases segs.len() - i,
    {
        style::push_line(out, inline(segs[i].as_str(), base));
        proof {
            assert(segs@[i as int]@ == scan::texts(segs@)[i as int]);
            assert(q.take(i + 1) =~= q.take(i as int).push(q[i as int]));
        }
        i += 1;
    }
    proof {
        assert(q.take(i as int) =~= q);
    }
}

/// Draws a markdown text, cut by display width.
pub fn render(text: &str, width: u16) -> (r: Vec<Line>)
    ensures
        style::line_views(r@) == rendered(text@, width as nat),
{
    let clean = ansi::strip(text);
    let rows = parse(clean.as_str());
    let ghost rv = row_views(rows@);
    let mut out = style::no_lines();
    let mut i: usize = 0;
    proof {
        assert(rv.take(0) =~= Seq::<RowView>::empty());
    }
    while i < rows.len()
        invariant
            rv == row_views(rows@),
            i <= rows.len(),
            style::line_views(out@) == draw_rows(rv.take(i as int), width as nat),
        decreases rows.len() - i,
    {
        let row = &rows[i];
        proof {
            assert(rv.take(i + 1).drop_last() =~= rv.take(i as int));
            assert(rv.take(i + 1).last() == rows@[i as int]@);
            assert(style::line_views(out@).len() == out@.len());
        }
        match row.kind {
            Kind::Empty => {
                if out.len() > 0 {
                    style::push_blank(&mut out);
                }
            },
            Kind::Hr => {
                let n: usize = shrink(width, 2, 8) as usize;
                style::push_text_line(
                    &mut out,
                    text::repeat_char('─', n),
                    Style::of(Color::DarkGray),
                );
            },
            Kind::Code => {
                draw_code(&mut out, row.text.as_str(), width);
            },
            Kind::Heading(level) => {
                draw_heading(&mut out, row.text.as_str(), level, width);
            },
            Kind::Quote => {
                draw_quote(&mut out, row.text.as_str(), width);
            },
            Kind::List => {
                draw_item(&mut out, row.text.as_str(), width);
            },
            Kind::Normal => {
                draw_normal(&mut out, row.text.as_str(), width);
            },
        }
        i += 1;
    }
    proof {
        assert(rv.take(i as int) =~= rv);
    }
    while out.len() > 0 && out[0].spans.len() == 0
        invariant
            without_leading_blanks(style::line_views(out@)) == rendered(text@, width as nat),
        decreases out.len(),
    {
        proof {
            assert(style::line_views(out@)[0] == out@[0]@);
            assert(style::line_views(out@.remove(0)) =~= style::line_views(out@).skip(1));
        }
        out.remove(0);
    }
    proof {
        if out.len() > 0 {
            assert(style::line_views(out@)[0] == out@[0]@);
        }
    }
    out
}

// ------------------------------------------------------------------------ laws

/// Columns that a line takes.
pub open spec fn line_width(l: Seq<SpanView>) -> nat {
    text::width(style::line_text(l))
}

proof fn lemma_line_width_push(l: Seq<SpanView>, sp: SpanView)
    ensures
        line_width(l.push(sp)) == line_width(l) + text::width(sp.content),
{
    assert(l.push(sp).drop_last() =~= l);
    text::lemma_width_add(style::line_text(l), sp.content);
}

proof fn lemma_line_width_add(a: Seq<SpanView>, b: Seq<SpanView>)
    ensures
        line_width(a + b) == line_width(a) + line_width(b),
    decreases b.len(),
{
    assert(style::line_text(Seq::<SpanView>::empty()) == Seq::<char>::empty());
    if b.len() == 0 {
        assert(a + b =~= a);
    } else {
        lemma_line_width_add(a, b.drop_last());
        lemma_line_width_push(a + b.drop_last(), b.last());
        lemma_line_width_push(b.drop_last(), b.last());
        assert(a + b =~= (a + b.drop_last()).push(b.last()));
        assert(b =~= b.drop_last().push(b.last()));
    }
}

proof fn lemma_width_split(s: Seq<char>, i: int, k: int)
    requires
        0 <= i <= k <= s.len(),
    ensures
        text::width(s.skip(i)) == text::width(s.subrange(i, k)) + text::width(s.skip(k)),
{
    text::lemma_width_add(s.subrange(i, k), s.skip(k));
    assert(s.skip(i) =~= s.subrange(i, k) + s.skip(k));
}

proof fn lemma_width_one(s: Seq<char>, i: int)
    requires
        0 <= i < s.len(),
    ensures
        text::width(s.skip(i)) == text::char_width(s[i]) + text::width(s.skip(i + 1)),
{
    lemma_width_split(s, i, i + 1);
    assert(s.subrange(i, i + 1) =~= Seq::<char>::empty().push(s[i]));
    text::lemma_width_push(Seq::<char>::empty(), s[i]);
}

proof fn lemma_link_width(s: Seq<char>, i: int, k: int, m: int)
    requires
        0 <= i < s.len(),
        link_end(s, i) == Some((k, m)),
        s[i] == '[',
        i < k,
        k + 1 < m < s.len(),
    ensures
        text::width(s.subrange(i + 1, k)) + text::width(" ("@ + s.subrange(k + 2, m) + ")"@)
            + text::width(s.skip(m + 1)) <= text::width(s.skip(i)),
{
    let t = s.subrange(k + 2, m);
    reveal_strlit(" (");
    reveal_strlit(")");
    text::lemma_width_add(" ("@, t);
    text::lemma_width_add(" ("@ + t, ")"@);
    assert(text::width(" ("@) == 2 && text::width(")"@) == 1) by {
        reveal_with_fuel(text::width, 3);
    }
    scan::lemma_find_from(s, ']', i + 1);
    scan::lemma_find_from(s, ')', k + 2);
    lemma_width_one(s, i);
    lemma_width_split(s, i + 1, k);
    lemma_width_one(s, k);
    lemma_width_one(s, k + 1);
    lemma_width_split(s, k + 2, m);
    lemma_width_one(s, m);
}

proof fn lemma_inline_width(
    s: Seq<char>,
    i: int,
    spans: Seq<SpanView>,
    plain: Seq<char>,
    base: Style,
)
    requires
        0 <= i <= s.len(),
    ensures
        line_width(inline_from(s, i, spans, plain, base)) <= line_width(spans) + text::width(plain)
            + text::width(s.skip(i)),
    decreases s.len() - i,
{
    let f = flushed(spans, plain, base);
    lemma_line_width_push(spans, style::sv(plain, base));
    if plain.len() == 0 {
        assert(text::width(plain) == 0);
    }
    assert(line_width(f) == line_width(spans) + text::width(plain));
    assert(text::width(Seq::<char>::empty()) == 0);
    if i < s.len() {
        match piece_at(s, i) {
            Piece::Plain => {
                lemma_width_one(s, i);
                text::lemma_width_push(plain, s[i]);
                lemma_inline_width(s, i + 1, spans, plain.push(s[i]), base);
            },
            Piece::Code(k) => {
                if i < k < s.len() {
                    let span = style::sv(s.subrange(i + 1, k), code_style(base));
                    lemma_line_width_push(f, span);
                    lemma_width_one(s, i);
                    lemma_width_split(s, i + 1, k);
                    lemma_width_one(s, k);
                    lemma_inline_width(s, k + 1, f.push(span), Seq::empty(), base);
                }
            },
            Piece::Bold(k) => {
                if i + 1 < k < s.len() - 1 {
                    let span = style::sv(s.subrange(i + 2, k), base.with_on(Modifier::Bold));
                    lemma_line_width_push(f, span);
                    lemma_width_split(s, i, i + 2);
                    lemma_width_split(s, i + 2, k);
                    lemma_width_split(s, k, k + 2);
                    lemma_inline_width(s, k + 2, f.push(span), Seq::empty(), base);
                }
            },
            Piece::Italic(k) => {
                if i < k < s.len() {
                    let span = style::sv(s.subrange(i + 1, k), base.with_on(Modifier::Italic));
                    lemma_line_width_push(f, span);
                    lemma_width_one(s, i);
                    lemma_width_split(s, i + 1, k);
                    lemma_width_one(s, k);
                    lemma_inline_width(s, k + 1, f.push(span), Seq::empty(), base);
                }
            },
            Piece::Link(k, m) => {
                if i < k && k + 1 < m < s.len() {
                    let t = s.subrange(k + 2, m);
                    let shown = style::sv(
                        s.subrange(i + 1, k),
                        base.with_on(Modifier::Underlined),
                    );
                    let address = style::sv(" ("@ + t + ")"@, address_style(base));
                    lemma_line_width_push(f, shown);
                    lemma_line_width_push(f.push(shown), address);
                    lemma_link_width(s, i, k, m);
                    lemma_inline_width(s, m + 1, f.push(shown).push(address), Seq::empty(), base);
                }
            },
        }
    }
}

proof fn lemma_led_width(head: Seq<char>, s: Seq<char>, base: Style)
    ensures
        line_width(style::one(head, base) + inlined(s, base)) <= text::width(head) + text::width(s),
        line_width(inlined(s, base)) <= text::width(s),
        line_width(style::one(head, base)) == text::width(head),
{
    assert(style::line_text(Seq::<SpanView>::empty()) == Seq::<char>::empty());
    assert(text::width(Seq::<char>::empty()) == 0);
    lemma_inline_width(s, 0, Seq::empty(), Seq::empty(), base);
    assert(s.skip(0) =~= s);
    lemma_line_width_push(Seq::empty(), style::sv(head, base));
    assert(style::one(head, base) =~= Seq::empty().push(style::sv(head, base)));
    lemma_line_width_add(style::one(head, base), inlined(s, base));
}

proof fn lemma_repeated_width(c: char, n: nat)
    requires
        text::char_width(c) == 1,
    ensures
        text::width(text::repeated(c, n)) == n,
    decreases n,
{
    if n > 0 {
        lemma_repeated_width(c, (n - 1) as nat);
        assert(text::repeated(c, n).drop_last() =~= text::repeated(c, (n - 1) as nat));
    }
}

proof fn lemma_item_mark(line: Seq<char>)
    requires
        is_item(scan::trimmed(line)),
    ensures
        ({
            let body = scan::trimmed_start(line);
            let end = find_white(body, 0);
            let mark = body.take(if end < 4 {
                end
            } else {
                4
            });
            text::width(mark) <= 4
        }),
{
    let body = scan::trimmed_start(line);
    let t = scan::trimmed(line);
    scan::lemma_back_white(body, body.len() as int);
    assert(forall|i: int| 0 <= i < t.len() ==> t[i] == body[i]);
    let d = past_digits(t, 0);
    lemma_past_digits(t, 0);
    let end = find_white(body, 0);
    lemma_find_white(body, 0, if t[0] == '-' || t[0] == '*' || t[0] == '+' {
        1
    } else {
        d + 1
    });
    let n = if end < 4 {
        end
    } else {
        4
    };
    lemma_narrow(body.take(n));
}

proof fn lemma_past_digits(s: Seq<char>, i: int)
    requires
        0 <= i <= s.len(),
    ensures
        i <= past_digits(s, i) <= s.len(),
        forall|k: int| i <= k < past_digits(s, i) ==> text::is_digit(#[trigger] s[k]),
    decreases s.len() - i,
{
    if i < s.len() && text::is_digit(s[i]) {
        lemma_past_digits(s, i + 1);
    }
}

proof fn lemma_find_white(s: Seq<char>, i: int, j: int)
    requires
        0 <= i <= j < s.len(),
        text::is_white(s[j]),
    ensures
        i <= find_white(s, i) <= j,
    decreases j - i,
{
    if i < j && !text::is_white(s[i]) {
        lemma_find_white(s, i + 1, j);
    }
}

proof fn lemma_narrow(s: Seq<char>)
    requires
        forall|i: int| 0 <= i < s.len() ==> text::char_width(#[trigger] s[i]) <= 1,
    ensures
        text::width(s) <= s.len(),
    decreases s.len(),
{
    if s.len() > 0 {
        lemma_narrow(s.drop_last());
    }
}

/// Lines that are no wider than the given width.
pub open spec fn fit(ls: Seq<Seq<SpanView>>, width: nat) -> bool {
    forall|i: int| 0 <= i < ls.len() ==> line_width(#[trigger] ls[i]) <= width
}

/// Rows whose list items have marks of four columns at most.
pub open spec fn narrow_marks(rows: Seq<RowView>) -> bool {
    forall|i: int|
        0 <= i < rows.len() && (#[trigger] rows[i]).kind == Kind::List ==> is_item(
            scan::trimmed(rows[i].text),
        )
}

proof fn lemma_parse_marks(ls: Seq<Seq<char>>)
    ensures
        narrow_marks(parse_lines(ls).rows),
    decreases ls.len(),
{
    if ls.len() > 0 {
        lemma_parse_marks(ls.drop_last());
    }
}

proof fn lemma_row_fits(out: Seq<Seq<SpanView>>, row: RowView, width: nat)
    requires
        width >= 15,
        fit(out, width),
        row.kind == Kind::List ==> is_item(scan::trimmed(row.text)),
    ensures
        fit(draw_row(out, row, width), width),
{
    reveal_strlit("■ ");
    reveal_strlit("• ");
    reveal_strlit("· ");
    reveal_strlit("│ ");
    reveal_strlit("  ");
    reveal_strlit(" ");
    reveal_strlit("      ");
    reveal_with_fuel(text::width, 7);
    assert(style::line_text(Seq::<SpanView>::empty()) == Seq::<char>::empty());
    match row.kind {
        Kind::Empty => {},
        Kind::Hr => {
            let st = style::colored(Color::DarkGray);
            lemma_repeated_width('─', room(width, 2, 8));
            lemma_led_width(text::repeated('─', room(width, 2, 8)), Seq::empty(), st);
        },
        Kind::Code => {
            let w = room(width, 2, 0);
            let st = style::colored(Color::Yellow);
            let segs = wrapped(row.text, w);
            let ls = segs.map_values(|s: Seq<char>| style::one(s, style::colored(Color::Yellow)));
            assert forall|i: int| 0 <= i < ls.len() implies line_width(#[trigger] ls[i])
                <= width by {
                law_wrap_fits(row.text, w, i);
                lemma_led_width(segs[i], Seq::empty(), st);
            }
        },
        Kind::Heading(level) => {
            let base = base_style(Kind::Heading(level));
            let mark = marker(level);
            let body = scan::trimmed_start(row.text.skip(hashes(row.text, 0)));
            let w = room(width, text::width(mark), 8);
            let segs = wrapped(body, w);
            let ls = heading_lines(row.text, level, width);
            lemma_repeated_width(' ', text::width(mark));
            assert forall|i: int| 0 <= i < ls.len() implies line_width(#[trigger] ls[i])
                <= width by {
                law_wrap_fits(body, w, i);
                lemma_led_width(mark, segs[i], base);
                lemma_led_width(text::repeated(' ', text::width(mark)), segs[i], base);
            }
        },
        Kind::Quote => {
            let base = base_style(Kind::Quote);
            let w = room(width, 2, 0);
            let segs = wrapped(row.text, w);
            let ls = quote_lines(row.text, width);
            assert forall|i: int| 0 <= i < ls.len() implies line_width(#[trigger] ls[i])
                <= width by {
                law_wrap_fits(row.text, w, i);
                lemma_led_width("│ "@, segs[i], base);
            }
        },
        Kind::List => {
            let base = base_style(Kind::List);
            let body = scan::trimmed_start(row.text);
            let end = find_white(body, 0);
            let mark = body.take(if end < 4 {
                end
            } else {
                4
            });
            lemma_item_mark(row.text);
            text::lemma_width_add("  "@, mark);
            text::lemma_width_add("  "@ + mark, " "@);
            let rest = scan::trimmed_start(body.skip(end));
            let w = room(width, item_indent(mark), 8);
            let segs = wrapped(rest, w);
            let ls = item_lines(row.text, width);
            assert forall|i: int| 0 <= i < ls.len() implies line_width(#[trigger] ls[i])
                <= width by {
                law_wrap_fits(rest, w, i);
                lemma_led_width("  "@ + mark + " "@, segs[i], base);
                lemma_led_width("      "@, segs[i], base);
            }
        },
        Kind::Normal => {
            let base = base_style(Kind::Normal);
            let segs = wrapped(row.text, width);
            let ls = segs.map_values(|s: Seq<char>| inlined(s, base_style(Kind::Normal)));
            assert forall|i: int| 0 <= i < ls.len() implies line_width(#[trigger] ls[i])
                <= width by {
                law_wrap_fits(row.text, width, i);
                lemma_led_width(Seq::empty(), segs[i], base);
            }
        },
    }
}

proof fn lemma_rows_fit(rows: Seq<RowView>, width: nat)
    requires
        width >= 15,
        narrow_marks(rows),
    ensures
        fit(draw_rows(rows, width), width),
    decreases rows.len(),
{
    if rows.len() > 0 {
        let t = rows.drop_last();
        assert forall|i: int| 0 <= i < t.len() && (#[trigger] t[i]).kind == Kind::List implies
            is_item(scan::trimmed(t[i].text)) by {
            assert(t[i] == rows[i]);
        }
        lemma_rows_fit(t, width);
        assert(rows[rows.len() - 1] == rows.last());
        lemma_row_fits(draw_rows(t, width), rows.last(), width);
    }
}

proof fn lemma_blanks_fit(ls: Seq<Seq<SpanView>>, width: nat)
    requires
        fit(ls, width),
    ensures
        fit(without_leading_blanks(ls), width),
    decreases ls.len(),
{
    if ls.len() > 0 && ls[0].len() == 0 {
        let t = ls.skip(1);
        assert forall|i: int| 0 <= i < t.len() implies line_width(#[trigger] t[i]) <= width by {
            assert(t[i] == ls[i + 1]);
        }
        lemma_blanks_fit(t, width);
    }
}

/// No line that a text is drawn as is wider than the given width, where that is at
/// least the fifteen columns that a list item with a long number needs.
pub proof fn law_render_fits(s: Seq<char>, width: nat)
    requires
        width >= 15,
    ensures
        fit(rendered(s, width), width),
{
    lemma_parse_marks(scan::line_list(ansi::stripped(s)));
    lemma_rows_fit(parsed(ansi::stripped(s)), width);
    lemma_blanks_fit(draw_rows(parsed(ansi::stripped(s)), width), width);
}

} // verus!
