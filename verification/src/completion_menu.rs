//! The list of candidates while it is open: its keys, what taking a candidate makes
//! of the text, the preview of one, and how the list is drawn.
use crate::ansi;
use crate::completion;
use crate::completion::{Completion, CompletionItem, CompletionKind, CompletionView, ItemView};
use crate::editor;
use crate::input;
use crate::input::{KeyCode, KeyEvent};
use crate::layout;
use crate::layout::Rect;
use crate::scan;
use crate::settings;
use crate::style;
use crate::style::{Color, Line, Modifier, SpanView, Style};
use crate::text;
use vstd::prelude::*;

verus! {

// ---------------------------------------------------------------------- taking

/// The candidate that is selected.
pub open spec fn chosen(c: CompletionView) -> ItemView {
    if c.selected < c.items.len() {
        c.items[c.selected as int]
    } else {
        c.items.last()
    }
}

/// Whether a text ends in a `/`.
pub open spec fn is_dir_label(s: Seq<char>) -> bool {
    s.len() > 0 && s.last() == '/'
}

/// What taking the selected candidate puts in: a reference keeps its `@`; a blank
/// follows unless it is a directory, or a blank stands there already.
pub open spec fn taken(c: CompletionView, rest: Seq<char>) -> Seq<char> {
    let it = chosen(c);
    let word = match c.kind {
        CompletionKind::At => "@"@ + it.insert,
        CompletionKind::Slash => it.insert,
    };
    if is_dir_label(it.label) || (rest.len() > 0 && text::is_white(rest[0])) {
        word
    } else {
        word.push(' ')
    }
}

/// The text and the cursor after the selected candidate was taken: it stands where
/// the word stood, and the cursor behind it.
pub open spec fn accepted(s: Seq<char>, b: nat, c: CompletionView) -> (Seq<char>, nat) {
    if c.items.len() == 0 {
        (s, b)
    } else {
        let j = editor::begun(s, c.word_start);
        let k = editor::begun(s, b);
        let full = taken(c, s.skip(k));
        (s.take(j) + full + s.skip(k), c.word_start + editor::byte_len(full))
    }
}

fn pick(cm: &Completion) -> (r: &CompletionItem)
    requires
        cm@.items.len() > 0,
    ensures
        r@ == chosen(cm@),
{
    proof {
        assert(cm@.items.len() == cm.items@.len());
    }
    let n: usize = cm.items.len();
    if cm.selected < n {
        &cm.items[cm.selected]
    } else {
        &cm.items[n - 1]
    }
}

fn ends_in_slash(s: &str) -> (r: bool)
    ensures
        r == is_dir_label(s@),
{
    let v = text::chars_of(s);
    v.len() > 0 && v[v.len() - 1] == '/'
}

/// Takes the selected candidate: it replaces the word, from its place to the cursor,
/// and the cursor moves behind it.
pub fn accept_completion(input: &mut String, cursor: &mut usize, cm: &Completion)
    requires
        cm@.items.len() > 0 ==> {
            &&& editor::is_place(old(input)@, *old(cursor) as nat)
            &&& editor::is_place(old(input)@, cm@.word_start)
            &&& cm@.word_start <= *old(cursor)
        },
    ensures
        (final(input)@, *final(cursor) as nat) == accepted(
            old(input)@,
            *old(cursor) as nat,
            cm@,
        ),
{
    proof {
        assert(cm@.items.len() == cm.items@.len());
    }
    if cm.items.len() == 0 {
        return;
    }
    let (j, _at) = editor::locate(input.as_str(), cm.word_start);
    let (k, _to) = editor::locate(input.as_str(), *cursor);
    let v = text::chars_of(input.as_str());
    let n: usize = v.len();
    let it = pick(cm);
    let mut full = match cm.kind {
        CompletionKind::At => text::cat2("@", it.insert.as_str()),
        CompletionKind::Slash => it.insert.clone(),
    };
    let next_white = k < n && text::char_is_white(v[k]);
    proof {
        let rest = input@.skip(k as int);
        assert(k < n ==> rest[0] == v@[k as int]);
    }
    if !ends_in_slash(it.label.as_str()) && !next_white {
        full.push(' ');
    }
    let mut t = text::string_of(&v, 0, j);
    t.append(full.as_str());
    let end: usize = editor::length(t.as_str());
    let tail = text::string_of(&v, k, n);
    t.append(tail.as_str());
    proof {
        assert(v@.subrange(0, j as int) =~= v@.take(j as int));
        assert(v@.subrange(k as int, n as int) =~= v@.skip(k as int));
        editor::lemma_byte_len_add(v@.take(j as int), full@);
    }
    *input = t;
    *cursor = end;
}

// --------------------------------------------------------------------- preview

/// What a candidate shows behind its `/`.
pub open spec fn shown_body(c: CompletionView) -> Seq<char> {
    let l = chosen(c).label;
    if c.kind == CompletionKind::Slash && l.len() > 0 && l[0] == '/' {
        l.skip(1)
    } else {
        l
    }
}

/// What the selected candidate shows behind what was typed, if it begins with that
/// and goes on.
pub open spec fn preview(c: CompletionView) -> Option<Seq<char>> {
    if c.items.len() > 0 && c.typed.is_prefix_of(shown_body(c)) && c.typed.len() < shown_body(
        c,
    ).len() {
        Some(shown_body(c).skip(c.typed.len() as int))
    } else {
        None
    }
}

/// What the selected candidate shows behind what was typed.
pub fn ghost_tail(cm: &Completion) -> (r: Option<String>)
    ensures
        match r {
            Some(t) => preview(cm@) == Some(t@),
            None => preview(cm@) is None,
        },
{
    proof {
        assert(cm@.items.len() == cm.items@.len());
    }
    if cm.items.len() == 0 {
        return None;
    }
    let it = pick(cm);
    let v = text::chars_of(it.label.as_str());
    let n: usize = v.len();
    let from: usize = if cm.kind == CompletionKind::Slash && n > 0 && v[0] == '/' {
        1
    } else {
        0
    };
    let body = text::string_of(&v, from, n);
    proof {
        assert(body@ =~= shown_body(cm@));
    }
    if !scan::starts_with(body.as_str(), cm.typed.as_str()) {
        return None;
    }
    let b = text::chars_of(body.as_str());
    let t: usize = text::count_chars(cm.typed.as_str());
    if t >= b.len() {
        return None;
    }
    let tail = text::string_of(&b, t, b.len());
    proof {
        assert(tail@ =~= shown_body(cm@).skip(t as int));
    }
    Some(tail)
}

// --------------------------------------------------------------------- refresh

/// What is to be done about the list of candidates.
#[derive(Debug)]
pub enum Refresh {
    /// It is closed.
    Close,
    /// It stays as it is.
    Keep,
    /// It is filled anew.
    Query { kind: CompletionKind, word_start: usize, typed: String },
}

/// What is to be done about the list of candidates.
pub enum RefreshView {
    Close,
    Keep,
    Query { kind: CompletionKind, word_start: nat, typed: Seq<char> },
}

impl View for Refresh {
    type V = RefreshView;

    open spec fn view(&self) -> RefreshView {
        match self {
            Refresh::Close => RefreshView::Close,
            Refresh::Keep => RefreshView::Keep,
            Refresh::Query { kind, word_start, typed } => RefreshView::Query {
                kind: *kind,
                word_start: *word_start as nat,
                typed: typed@,
            },
        }
    }
}

/// What is to be done: nothing is completed where that is not allowed, or where the
/// cursor stands in no word for it; a list for the same word stays.
pub open spec fn refresh_of(
    s: Seq<char>,
    b: nat,
    enabled: bool,
    cm: Option<CompletionView>,
) -> RefreshView {
    if !enabled {
        RefreshView::Close
    } else {
        match completion::detected(s, b) {
            None => RefreshView::Close,
            Some((kind, start, typed)) => {
                let at = editor::place(s, start);
                match cm {
                    Some(c) => if c.kind == kind && c.word_start == at && c.typed == typed {
                        RefreshView::Keep
                    } else {
                        RefreshView::Query { kind, word_start: at, typed }
                    },
                    None => RefreshView::Query { kind, word_start: at, typed },
                }
            },
        }
    }
}

/// What is to be done about the list of candidates, now that the text and the cursor
/// are as given.
pub fn refresh_completion(
    input: &str,
    cursor: usize,
    enabled: bool,
    cm: &Option<Completion>,
) -> (r: Refresh)
    requires
        enabled ==> editor::is_place(input@, cursor as nat),
    ensures
        r@ == refresh_of(input@, cursor as nat, enabled, completion::opt_view(*cm)),
{
    if !enabled {
        return Refresh::Close;
    }
    match completion::completion_detect(input, cursor) {
        None => Refresh::Close,
        Some((kind, word_start, typed)) => {
            if let Some(c) = cm {
                if c.kind == kind && c.word_start == word_start && text::same(
                    c.typed.as_str(),
                    typed.as_str(),
                ) {
                    return Refresh::Keep;
                }
            }
            Refresh::Query { kind, word_start, typed }
        },
    }
}

/// The list that is opened with the candidates that were found: none without any.
pub open spec fn opened(
    kind: CompletionKind,
    word_start: nat,
    typed: Seq<char>,
    items: Seq<ItemView>,
) -> Option<CompletionView> {
    if items.len() == 0 {
        None
    } else {
        Some(CompletionView { kind, typed, word_start, items, selected: 0 })
    }
}

/// Opens a list with the candidates that were found.
pub fn open_completion(
    kind: CompletionKind,
    word_start: usize,
    typed: String,
    items: Vec<CompletionItem>,
) -> (r: Option<Completion>)
    ensures
        completion::opt_view(r) == opened(
            kind,
            word_start as nat,
            typed@,
            completion::item_views(items@),
        ),
{
    proof {
        assert(completion::item_views(items@).len() == items@.len());
    }
    if items.len() == 0 {
        return None;
    }
    Some(Completion { kind, typed, word_start, items, selected: 0 })
}

// ------------------------------------------------------------------------ keys

/// What a key does to the list of candidates.
#[derive(Debug)]
pub enum MenuStep {
    /// The key is not for the list, which stays as given.
    Pass(Option<Completion>),
    /// The key was for the list, which is now as given.
    Used(Completion),
    /// The selected candidate is taken, and the list closed.
    Take(Completion),
}

/// What a key does to the list of candidates.
pub enum MenuView {
    Pass(Option<CompletionView>),
    Used(CompletionView),
    Take(CompletionView),
}

impl View for MenuStep {
    type V = MenuView;

    open spec fn view(&self) -> MenuView {
        match self {
            MenuStep::Pass(o) => MenuView::Pass(completion::opt_view(*o)),
            MenuStep::Used(c) => MenuView::Used(c@),
            MenuStep::Take(c) => MenuView::Take(c@),
        }
    }
}

/// What a key does: the arrows move the selection, `Tab` and `Enter` take it, and
/// `Esc` empties the list, which then stays empty as long as the word is the same.
pub open spec fn menu_step(cm: Option<CompletionView>, key: KeyEvent) -> MenuView {
    match cm {
        None => MenuView::Pass(None),
        Some(c) => if c.items.len() == 0 {
            MenuView::Pass(Some(c))
        } else {
            match key.code {
                KeyCode::Up => MenuView::Used(
                    CompletionView {
                        selected: if c.selected > 0 {
                            (c.selected - 1) as nat
                        } else {
                            0
                        },
                        ..c
                    },
                ),
                KeyCode::Down => MenuView::Used(
                    CompletionView {
                        selected: if c.selected + 1 < c.items.len() {
                            c.selected + 1
                        } else {
                            (c.items.len() - 1) as nat
                        },
                        ..c
                    },
                ),
                KeyCode::Tab => if key.shift {
                    MenuView::Pass(Some(c))
                } else {
                    MenuView::Take(c)
                },
                KeyCode::Enter => if key.shift || key.alt {
                    MenuView::Pass(Some(c))
                } else {
                    MenuView::Take(c)
                },
                KeyCode::Esc => MenuView::Used(
                    CompletionView { items: Seq::empty(), selected: 0, ..c },
                ),
                _ => MenuView::Pass(Some(c)),
            }
        },
    }
}

/// What a key does to the list of candidates.
pub fn menu_key(cm: Option<Completion>, key: KeyEvent) -> (r: MenuStep)
    ensures
        r@ == menu_step(completion::opt_view(cm), key),
{
    let mut c = match cm {
        None => {
            return MenuStep::Pass(None);
        },
        Some(c) => c,
    };
    proof {
        assert(c@.items.len() == c.items@.len());
    }
    let n: usize = c.items.len();
    if n == 0 {
        return MenuStep::Pass(Some(c));
    }
    match key.code {
        KeyCode::Up => {
            c.selected = input::move_up(c.selected);
            MenuStep::Used(c)
        },
        KeyCode::Down => {
            c.selected = if c.selected < n - 1 {
                c.selected + 1
            } else {
                n - 1
            };
            MenuStep::Used(c)
        },
        KeyCode::Tab => if key.shift {
            MenuStep::Pass(Some(c))
        } else {
            MenuStep::Take(c)
        },
        KeyCode::Enter => if key.shift || key.alt {
            MenuStep::Pass(Some(c))
        } else {
            MenuStep::Take(c)
        },
        KeyCode::Esc => {
            c.items = Vec::new();
            c.selected = 0;
            proof {
                assert(c@.items =~= Seq::<ItemView>::empty());
            }
            MenuStep::Used(c)
        },
        _ => MenuStep::Pass(Some(c)),
    }
}

// --------------------------------------------------------------------- drawing

/// How many rows the list has at most.
pub const MENU_ROWS: u16 = 8;

/// How many columns an explanation takes at most.
pub const HINT_WIDTH: usize = 28;

/// Where the list is drawn, and its lines.
#[derive(Debug)]
pub struct Menu {
    pub area: Rect,
    pub lines: Vec<Line>,
}

/// How many rows the list shows.
pub open spec fn menu_rows(n: nat) -> u16 {
    if n < MENU_ROWS {
        n as u16
    } else {
        MENU_ROWS
    }
}

/// Where the list is drawn: above the given area.
pub open spec fn menu_rect(area: Rect, n: nat) -> Rect {
    let height = (menu_rows(n) + 2) as u16;
    let y = layout::less(area.y, height);
    let w = layout::less(area.width, 2);
    Rect {
        x: (area.x + 1) as u16,
        y: if y < 1 {
            1
        } else {
            y
        },
        width: if w < 20 {
            20
        } else {
            w
        },
        height,
    }
}

/// The first candidate that is shown, so that the selected one is.
pub open spec fn menu_start(n: int, selected: int, rows: int) -> int {
    let want = if rows == 0 {
        selected
    } else if selected > rows - 1 {
        selected - (rows - 1)
    } else {
        0
    };
    let most = if n > rows {
        n - rows
    } else {
        0
    };
    if want < most {
        want
    } else {
        most
    }
}

/// The style of a row.
pub open spec fn menu_style(selected: bool) -> Style {
    if selected {
        style::colored(Color::Black).with_bg(Color::Cyan).with_on(Modifier::Bold)
    } else {
        style::plain()
    }
}

/// How wide an explanation is.
pub open spec fn hint_width(hint: Seq<char>) -> nat {
    if hint.len() < HINT_WIDTH {
        hint.len()
    } else {
        HINT_WIDTH as nat
    }
}

/// What a row shows of its label: what is left beside the explanation, or four
/// characters.
pub open spec fn shown_label(it: ItemView, avail: int) -> Seq<char> {
    let room = avail - (hint_width(it.hint) + 1);
    settings::shortened(
        it.label,
        if room < 4 {
            4
        } else {
            room as nat
        },
    )
}

/// The blanks between a label and its explanation.
pub open spec fn gap(it: ItemView, avail: int) -> nat {
    let used = shown_label(it, avail).len() + hint_width(it.hint);
    if avail >= used {
        (avail - used) as nat
    } else {
        0
    }
}

/// A row: the label, and the explanation at the right.
pub open spec fn menu_line(it: ItemView, selected: bool, avail: int) -> Seq<SpanView> {
    let st = menu_style(selected);
    Seq::empty().push(style::sv(" "@ + shown_label(it, avail), st)).push(
        style::sv(
            if it.hint.len() == 0 {
                text::repeated(' ', gap(it, avail))
            } else {
                text::repeated(' ', gap(it, avail)) + settings::shortened(
                    it.hint,
                    hint_width(it.hint),
                )
            },
            st,
        ),
    )
}

/// A candidate as it is drawn: stripped of what a terminal would obey.
pub open spec fn drawable(it: ItemView) -> ItemView {
    ItemView { label: ansi::stripped(it.label), hint: ansi::stripped(it.hint), ..it }
}

/// The rows `from..to`.
pub open spec fn menu_lines(c: CompletionView, from: int, to: int, avail: int) -> Seq<
    Seq<SpanView>,
>
    decreases to - from,
{
    if to <= from {
        Seq::empty()
    } else {
        menu_lines(c, from, to - 1, avail).push(
            menu_line(drawable(c.items[to - 1]), to - 1 == c.selected, avail),
        )
    }
}

/// The rows that are shown.
pub open spec fn menu_text(c: CompletionView, area: Rect) -> Seq<Seq<SpanView>> {
    let n = c.items.len();
    let rows = menu_rows(n) as int;
    let start = menu_start(n as int, c.selected as int, rows);
    menu_lines(c, start, start + rows, menu_rect(area, n).width - 4)
}

fn draw_item(it: &CompletionItem, selected: bool, avail: usize) -> (line: Vec<style::Span>)
    ensures
        style::span_views(line@) == menu_line(drawable(it@), selected, avail as int),
{
    let st = if selected {
        Style::of(Color::Black).on_bg(Color::Cyan).add_modifier(Modifier::Bold)
    } else {
        Style::new()
    };
    let label = ansi::strip(it.label.as_str());
    let hint = ansi::strip(it.hint.as_str());
    let hint_len: usize = text::count_chars(hint.as_str());
    let hint_w: usize = if hint_len < HINT_WIDTH {
        hint_len
    } else {
        HINT_WIDTH
    };
    let room: usize = if avail >= hint_w + 1 + 4 {
        avail - (hint_w + 1)
    } else {
        4
    };
    let label = settings::shorten(label.as_str(), room);
    let label_len: usize = text::count_chars(label.as_str());
    let pad: usize = if avail >= hint_w && avail - hint_w >= label_len {
        avail - hint_w - label_len
    } else {
        0
    };
    let mut spans = style::no_spans();
    style::push_span(&mut spans, text::cat2(" ", label.as_str()), st);
    let blanks = text::repeat_char(' ', pad);
    if hint_len == 0 {
        style::push_span(&mut spans, blanks, st);
    } else {
        let hint = settings::shorten(hint.as_str(), hint_w);
        style::push_span(&mut spans, text::cat2(blanks.as_str(), hint.as_str()), st);
    }
    spans
}

/// Draws the list of candidates above the given area; an empty one is not drawn.
pub fn draw_completion_menu(area: Rect, cm: &Completion) -> (r: Option<Menu>)
    requires
        area.x < 65535,
    ensures
        match r {
            Some(m) => {
                &&& cm@.items.len() > 0
                &&& m.area == menu_rect(area, cm@.items.len())
                &&& style::line_views(m.lines@) == menu_text(cm@, area)
            },
            None => cm@.items.len() == 0,
        },
{
    let ghost c = cm@;
    proof {
        assert(c.items.len() == cm.items@.len());
    }
    let n: usize = cm.items.len();
    if n == 0 {
        return None;
    }
    let rows: u16 = if n < MENU_ROWS as usize {
        n as u16
    } else {
        MENU_ROWS
    };
    let height: u16 = rows + 2;
    let y: u16 = layout::minus(area.y, height);
    let w: u16 = layout::minus(area.width, 2);
    let width: u16 = if w < 20 {
        20
    } else {
        w
    };
    let rect = Rect {
        x: area.x + 1,
        y: if y < 1 {
            1
        } else {
            y
        },
        width,
        height,
    };
    let view: usize = rows as usize;
    let want: usize = if view == 0 {
        cm.selected
    } else if cm.selected > view - 1 {
        cm.selected - (view - 1)
    } else {
        0
    };
    let most: usize = if n > view {
        n - view
    } else {
        0
    };
    let start: usize = if want < most {
        want
    } else {
        most
    };
    let avail: usize = (width - 4) as usize;
    let to: usize = start + view;
    let mut lines = style::no_lines();
    let mut i: usize = start;
    while i < to
        invariant
            c == cm@,
            start <= i <= to <= cm.items@.len(),
            style::line_views(lines@) == menu_lines(c, start as int, i as int, avail as int),
        decreases to - i,
    {
        let spans = draw_item(&cm.items[i], i == cm.selected, avail);
        style::push_line(&mut lines, spans);
        i += 1;
    }
    Some(Menu { area: rect, lines })
}

// ------------------------------------------------------------------------ laws

/// Taking a candidate changes nothing but the word: what stands before it and what
/// stands behind the cursor stay, and the cursor moves between the two, behind what
/// was put in.
pub proof fn law_taking_changes_the_word_only(s: Seq<char>, b: nat, c: CompletionView)
    requires
        c.items.len() > 0,
        editor::is_place(s, b),
        editor::is_place(s, c.word_start),
        c.word_start <= b,
    ensures
        ({
            let (t, e) = accepted(s, b, c);
            let j = editor::begun(s, c.word_start);
            let k = editor::begun(s, b);
            &&& editor::is_place(t, e)
            &&& t.take(j) == s.take(j)
            &&& t.skip(editor::begun(t, e)) == s.skip(k)
            &&& t.subrange(j, editor::begun(t, e)) == taken(c, s.skip(k))
        }),
{
    let j = editor::begun(s, c.word_start);
    let k = editor::begun(s, b);
    editor::lemma_begun_bound(s, b);
    editor::lemma_begun_bound(s, c.word_start);
    let full = taken(c, s.skip(k));
    let (t, e) = accepted(s, b, c);
    let m = j + full.len();
    assert(t.take(m) =~= s.take(j) + full);
    editor::lemma_byte_len_add(s.take(j), full);
    editor::lemma_begun_place(t, m);
    assert(t.take(j) =~= s.take(j));
    assert(t.skip(m) =~= s.skip(k));
    assert(t.subrange(j, m) =~= full);
}

/// What was typed and its preview make up what the candidate shows.
pub proof fn law_preview_completes(c: CompletionView)
    requires
        preview(c) is Some,
    ensures
        c.typed + preview(c)->Some_0 == shown_body(c),
{
    assert(c.typed + preview(c)->Some_0 =~= shown_body(c));
}

/// The selected candidate is among those that are shown.
pub proof fn law_selection_is_shown(n: nat, selected: nat)
    requires
        selected < n,
    ensures
        ({
            let rows = menu_rows(n) as int;
            let start = menu_start(n as int, selected as int, rows);
            0 <= start <= selected < start + rows && start + rows <= n
        }),
{
}

/// A list that was closed by `Esc` stays closed as long as the text and the cursor
/// are the same.
pub proof fn law_escaped_list_stays_closed(s: Seq<char>, b: nat, c: CompletionView, key: KeyEvent)
    requires
        refresh_of(s, b, true, Some(c)) is Keep,
        c.items.len() > 0,
        key.code == KeyCode::Esc,
    ensures
        ({
            let d = menu_step(Some(c), key)->Used_0;
            &&& menu_step(Some(c), key) is Used
            &&& d.items.len() == 0
            &&& refresh_of(s, b, true, Some(d)) is Keep
        }),
{
}

/// The selection stays within the list.
pub proof fn law_selection_stays_in_list(c: CompletionView, key: KeyEvent)
    requires
        c.selected < c.items.len(),
        menu_step(Some(c), key) is Used,
        key.code != KeyCode::Esc,
    ensures
        menu_step(Some(c), key)->Used_0.selected < c.items.len(),
        menu_step(Some(c), key)->Used_0.items == c.items,
{
}

} // verus!
