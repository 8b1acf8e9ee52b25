//! What is drawn of the text that is typed, of the rows of the session manager and of
//! points in time, and which names settings have.

use crate::agent;
use crate::ansi;
use crate::dates;
use crate::editor;
use crate::input_box;
use crate::layout::Rect;
use crate::md;
use crate::quick_cfg;
use crate::quick_cfg::QcItem;
use crate::scan;
use crate::session_rows;
use crate::session_rows::{MemoryFile, MemoryRowView, SessionFile, SessionRowView};
use crate::sessions_draw;
use crate::sessions_draw::PageView;
use crate::sessions_ui::{ManagerView, ModeView, Tab};
use crate::settings;
use crate::style::Color;
use crate::text;
use crate::text_laws;
use vstd::prelude::*;

verus! {

// -------------------------------------------------------------------------- time

/// The day behind another, by the calendar.
pub open spec fn next_day(y: int, m: int, d: int) -> (int, int, int) {
    let last = if m == 2 {
        if y % 4 == 0 && (y % 100 != 0 || y % 400 == 0) {
            29int
        } else {
            28
        }
    } else if m == 4 || m == 6 || m == 9 || m == 11 {
        30
    } else {
        31
    };
    if d < last {
        (y, m, d + 1)
    } else if m < 12 {
        (y, m + 1, 1)
    } else {
        (y + 1, 1, 1)
    }
}

/// Days are counted from the first of 1970, and each day is one more than the one before
/// it in the calendar.
pub proof fn law_days_are_counted(y: int, m: int, d: int)
    requires
        1 <= m <= 12,
        1 <= d <= dates::month_days(y, m),
    ensures
        dates::days_of(1970, 1, 1) == 0,
        ({
            let n = next_day(y, m, d);
            dates::days_of(n.0, n.1, n.2) == dates::days_of(y, m, d) + 1
        }),
{
    if m == 1 {
    } else if m == 2 {
    } else if m == 3 {
    } else if m == 4 {
    } else if m == 5 {
    } else if m == 6 {
    } else if m == 7 {
    } else if m == 8 {
    } else if m == 9 {
    } else if m == 10 {
    } else if m == 11 {
    } else {
    }
}

/// What is less than a minute ago was just now; what is less than an hour, a day or
/// thirty days ago is told in whole minutes, hours or days; and what is longer ago by
/// its date.
pub proof fn law_time_is_told(t: u64, now: u64)
    ensures
        t <= now ==> ({
            let d = now - t;
            let s = dates::ago(t, now);
            let (y, m, day) = dates::date_of((t / 86400) as int);
            &&& d < 60 ==> s == "刚刚"@
            &&& 60 <= d < 3600 ==> s == text::decimal((d / 60) as nat) + " 分钟前"@
            &&& 3600 <= d < 86400 ==> s == text::decimal((d / 3600) as nat) + " 小时前"@
            &&& 86400 <= d < 2592000 ==> s == text::decimal((d / 86400) as nat) + " 天前"@
            &&& 2592000 <= d ==> s == text::padded(y as nat, 4) + "-"@ + text::padded(m as nat, 2)
                + "-"@ + text::padded(day as nat, 2)
        }),
        now < t ==> dates::ago(t, now) == "刚刚"@,
{
}

// -------------------------------------------------------------------------- rows

/// The row of a session holds its path, its id, its note, its size in thousands of
/// bytes and its time; it is the current one just where its id is the current id.
pub proof fn law_rows_of_sessions(f: SessionFile, current: Seq<char>, id: Seq<char>)
    requires
        settings::opt_text(f.stem) == Some(id),
    ensures
        ({
            let r = session_rows::row_of_session(f, current);
            &&& r.path == f.path@ && r.id == id && r.headless == f.headless
            &&& r.note == settings::opt_text(f.note)
            &&& r.size_kb * 1024 <= f.size < r.size_kb * 1024 + 1024
            &&& r.modified == f.modified
            &&& r.is_current <==> id == current
        }),
{
}

/// The row of a memory holds its file, its name, what it is about, its kind, its size in
/// thousands of bytes and its time.
pub proof fn law_rows_of_memories(f: MemoryFile)
    ensures
        ({
            let r = session_rows::row_of_memory(f);
            &&& r.filename == f.filename@ && r.name == f.name@ && r.desc == f.description@
            &&& r.mtype == f.mtype@ && r.modified == f.modified
            &&& r.size_kb * 1024 <= f.size < r.size_kb * 1024 + 1024
        }),
{
}

/// A text of characters that a terminal draws.
pub open spec fn plain(s: Seq<char>) -> bool {
    forall|i: int| 0 <= i < s.len() ==> ansi::is_shown(#[trigger] s[i])
}

proof fn lemma_in(a: Seq<char>, p: Seq<char>, b: Seq<char>, s: Seq<char>)
    requires
        s == a + p + b,
    ensures
        scan::occurs(s, p),
{
    text_laws::law_parts_occur(a, p, b);
}

/// The line of a session shows its id, its note as far as it is no longer than two
/// dozen characters, whether it is marked, whether it is the current one, its size and
/// how long ago it was.
pub proof fn law_lines_of_sessions(r: SessionRowView, on: bool, here: bool, now: u64, n: Seq<char>)
    requires
        plain(r.id),
        plain(n),
        n.len() <= 24,
        r.note is Some ==> r.note == Some(n),
    ensures
        ({
            let s = sessions_draw::session_line(r, on, here, now);
            &&& scan::occurs(s, r.id)
            &&& r.note is Some ==> scan::occurs(s, n)
            &&& r.is_current ==> scan::occurs(s, "[当前会话]"@)
            &&& scan::occurs(
                s,
                text::decimal(r.size_kb as nat) + "KB · "@ + dates::ago(r.modified, now),
            )
            &&& s.len() >= 4 && s[0] == '[' && s[2] == ']' && (s[1] == '×' <==> on) && (s[3] == '▶'
                <==> here)
        }),
{
    ansi::law_strip_keeps_clean_text(r.id);
    let e = Seq::<char>::empty();
    let a = sessions_draw::check_box(on) + sessions_draw::pointer(here);
    let note = match r.note {
        Some(x) => "「"@ + settings::shortened(ansi::stripped(x), 24) + "」"@,
        None => e,
    };
    let hl = if r.headless {
        " [无头]"@
    } else {
        e
    };
    let cur = if r.is_current {
        " [当前会话]"@
    } else {
        e
    };
    let size = text::decimal(r.size_kb as nat);
    let ago = dates::ago(r.modified, now);
    let s = sessions_draw::session_line(r, on, here, now);
    assert(s == a + note + " "@ + r.id + hl + cur + " · "@ + size + "KB · "@ + ago);
    lemma_session_parts(a, note, r.id, hl, cur, size, ago);
    if r.note is Some {
        ansi::law_strip_keeps_clean_text(n);
        assert(settings::shortened(n, 24) == n);
        let rest = " "@ + r.id + hl + cur + " · "@ + size + "KB · "@ + ago;
        lemma_in("「"@, n, "」"@, note);
        text_laws::law_parts_of_parts_occur(a, note, rest, n);
        lemma_note_first(a, note, r.id, hl, cur, size, ago);
    }
    if r.is_current {
        reveal_strlit(" [当前会话]");
        reveal_strlit("[当前会话]");
        assert(seq![' '] + "[当前会话]"@ =~= " [当前会话]"@);
        lemma_in(seq![' '], "[当前会话]"@, e, cur + e);
        assert(cur + e =~= cur);
        text_laws::law_parts_of_parts_occur(
            a + note + " "@ + r.id + hl,
            cur,
            " · "@ + size + "KB · "@ + ago,
            "[当前会话]"@,
        );
        lemma_current_middle(a, note, r.id, hl, cur, size, ago);
    }
    lemma_box(on, here);
    assert forall|i: int| 0 <= i < 4 implies s[i] == a[i] by {
        lemma_note_first(a, note, r.id, hl, cur, size, ago);
        let rest = " "@ + r.id + hl + cur + " · "@ + size + "KB · "@ + ago;
        assert(s == a + note + rest);
        assert((a + note + rest)[i] == (a + note)[i]);
        assert((a + note)[i] == a[i]);
    }
    lemma_note_first(a, note, r.id, hl, cur, size, ago);
}

proof fn lemma_box(on: bool, here: bool)
    ensures
        ({
            let a = sessions_draw::check_box(on) + sessions_draw::pointer(here);
            a.len() == 4 && a[0] == '[' && a[2] == ']' && (a[1] == '×' <==> on) && (a[3] == '▶'
                <==> here)
        }),
{
    reveal_strlit("[×]");
    reveal_strlit("[ ]");
    reveal_strlit("▶");
    reveal_strlit(" ");
}

proof fn lemma_session_parts(
    a: Seq<char>,
    note: Seq<char>,
    id: Seq<char>,
    hl: Seq<char>,
    cur: Seq<char>,
    size: Seq<char>,
    ago: Seq<char>,
)
    ensures
        scan::occurs(a + note + " "@ + id + hl + cur + " · "@ + size + "KB · "@ + ago, id),
        scan::occurs(
            a + note + " "@ + id + hl + cur + " · "@ + size + "KB · "@ + ago,
            size + "KB · "@ + ago,
        ),
{
    let e = Seq::<char>::empty();
    let front = a + note + " "@;
    let rest = hl + cur + " · "@ + size + "KB · "@ + ago;
    let s = front + id + hl + cur + " · "@ + size + "KB · "@ + ago;
    assert(s =~= front + id + rest);
    lemma_in(front, id, rest, s);
    let head = front + id + hl + cur + " · "@;
    let p = size + "KB · "@ + ago;
    assert(s =~= head + p + e);
    lemma_in(head, p, e, s);
}

proof fn lemma_note_first(
    a: Seq<char>,
    note: Seq<char>,
    id: Seq<char>,
    hl: Seq<char>,
    cur: Seq<char>,
    size: Seq<char>,
    ago: Seq<char>,
)
    ensures
        a + note + " "@ + id + hl + cur + " · "@ + size + "KB · "@ + ago == a + note + (" "@ + id
            + hl + cur + " · "@ + size + "KB · "@ + ago),
{
    assert(a + note + " "@ + id + hl + cur + " · "@ + size + "KB · "@ + ago =~= a + note + (" "@
        + id + hl + cur + " · "@ + size + "KB · "@ + ago));
}

proof fn lemma_current_middle(
    a: Seq<char>,
    note: Seq<char>,
    id: Seq<char>,
    hl: Seq<char>,
    cur: Seq<char>,
    size: Seq<char>,
    ago: Seq<char>,
)
    ensures
        a + note + " "@ + id + hl + cur + " · "@ + size + "KB · "@ + ago == a + note + " "@ + id
            + hl + cur + (" · "@ + size + "KB · "@ + ago),
{
    let x = a + note + " "@ + id + hl + cur;
    assert(x + " · "@ + size + "KB · "@ + ago =~= x + (" · "@ + size + "KB · "@ + ago));
}

/// The line of a memory shows its name, what it is about as far as that is no longer
/// than three dozen characters, its kind, whether it is marked, its size and how long
/// ago it was.
pub proof fn law_lines_of_memories(r: MemoryRowView, on: bool, here: bool, now: u64)
    requires
        plain(r.name),
        plain(r.desc),
        plain(r.mtype),
        r.desc.len() <= 36,
    ensures
        ({
            let s = sessions_draw::memory_line(r, on, here, now);
            &&& scan::occurs(s, r.name + " — "@ + r.desc)
            &&& scan::occurs(s, r.mtype)
            &&& scan::occurs(
                s,
                text::decimal(r.size_kb as nat) + "KB · "@ + dates::ago(r.modified, now),
            )
        }),
{
    ansi::law_strip_keeps_clean_text(r.name);
    ansi::law_strip_keeps_clean_text(r.desc);
    ansi::law_strip_keeps_clean_text(r.mtype);
    let e = Seq::<char>::empty();
    let a = sessions_draw::check_box(on) + sessions_draw::pointer(here) + " "@;
    let kind = if r.mtype.len() == 0 {
        e
    } else {
        "("@ + r.mtype + ")"@
    };
    let size = text::decimal(r.size_kb as nat);
    let ago = dates::ago(r.modified, now);
    assert(settings::shortened(r.desc, 36) == r.desc);
    let s = sessions_draw::memory_line(r, on, here, now);
    assert(s == a + r.name + " — "@ + r.desc + kind + " · "@ + size + "KB · "@ + ago);
    lemma_memory_parts(a, r.name, r.desc, kind, size, ago);
    if r.mtype.len() > 0 {
        lemma_in("("@, r.mtype, ")"@, kind);
        let front = a + r.name + " — "@ + r.desc;
        let rest = " · "@ + size + "KB · "@ + ago;
        text_laws::law_parts_of_parts_occur(front, kind, rest, r.mtype);
        assert(front + kind + " · "@ + size + "KB · "@ + ago =~= front + kind + rest);
    } else {
        assert(s =~= e + r.mtype + s);
        lemma_in(e, r.mtype, s, s);
    }
}

proof fn lemma_memory_parts(
    a: Seq<char>,
    name: Seq<char>,
    desc: Seq<char>,
    kind: Seq<char>,
    size: Seq<char>,
    ago: Seq<char>,
)
    ensures
        scan::occurs(
            a + name + " — "@ + desc + kind + " · "@ + size + "KB · "@ + ago,
            name + " — "@ + desc,
        ),
        scan::occurs(
            a + name + " — "@ + desc + kind + " · "@ + size + "KB · "@ + ago,
            size + "KB · "@ + ago,
        ),
{
    let e = Seq::<char>::empty();
    let s = a + name + " — "@ + desc + kind + " · "@ + size + "KB · "@ + ago;
    let p = name + " — "@ + desc;
    let rest = kind + " · "@ + size + "KB · "@ + ago;
    assert(s =~= a + p + rest);
    lemma_in(a, p, rest, s);
    let head = a + name + " — "@ + desc + kind + " · "@;
    let q = size + "KB · "@ + ago;
    assert(s =~= head + q + e);
    lemma_in(head, q, e, s);
}

/// Every row that is shown has its line in the list, in the order of the rows; the list
/// has no other lines, and where none are shown one line says so.
pub proof fn law_shown_rows_have_lines(u: ManagerView, i: int, now: u64)
    requires
        0 <= i < u.rows(),
        u.visible(i),
    ensures
        sessions_draw::list_lines(u, now).len() == u.visible_before(u.rows()),
        u.visible_before(i as nat) < u.visible_before(u.rows()),
        sessions_draw::list_lines(u, now)[u.visible_before(i as nat) as int]
            == sessions_draw::row_line(u, i, now),
{
    lemma_row_lines(u, i, u.rows(), now);
}

proof fn lemma_row_lines(u: ManagerView, i: int, n: nat, now: u64)
    requires
        0 <= i < n,
        u.visible(i),
    ensures
        sessions_draw::row_lines(u, n, now).len() == u.visible_before(n),
        u.visible_before(i as nat) < u.visible_before(n),
        sessions_draw::row_lines(u, n, now)[u.visible_before(i as nat) as int]
            == sessions_draw::row_line(u, i, now),
    decreases n,
{
    lemma_lines_count(u, (n - 1) as nat, now);
    if i < n - 1 {
        lemma_row_lines(u, i, (n - 1) as nat, now);
    }
}

proof fn lemma_lines_count(u: ManagerView, n: nat, now: u64)
    ensures
        sessions_draw::row_lines(u, n, now).len() == u.visible_before(n),
    decreases n,
{
    if n > 0 {
        lemma_lines_count(u, (n - 1) as nat, now);
    }
}

/// A memory that is looked at is shown with its title and with all of its lines, from
/// the line on that was scrolled to.
pub proof fn law_memories_are_shown(
    u: ManagerView,
    title: Seq<char>,
    body: Seq<Seq<char>>,
    offset: usize,
    now: u64,
    width: u16,
    height: u16,
)
    requires
        u.mode == (ModeView::Detail { title, body, offset }),
        height >= 5,
        width >= 24,
        offset < body.len(),
        plain(title),
        title.len() <= 60,
        forall|i: int| 0 <= i < body.len() ==> plain(#[trigger] body[i]),
    ensures
        match sessions_draw::page_of(u, now, width, height) {
            Some(PageView::Detail { title: t, text: s, scroll }) => {
                &&& scan::occurs(t, title)
                &&& s == scan::join_lines(body)
                &&& scroll == offset
            },
            _ => false,
        },
{
    ansi::law_strip_keeps_clean_text(title);
    assert forall|i: int| 0 <= i < body.len() implies ansi::stripped(#[trigger] body[i]) == body[i] by {
        assert(plain(body[i]));
        ansi::law_strip_keeps_clean_text(body[i]);
    }
    assert(sessions_draw::stripped_texts(body) =~= body);
    assert(settings::shortened(title, 60) == title);
    lemma_in(" 记忆正文: "@, title, "  "@, " 记忆正文: "@ + title + "  "@);
}

/// The list is shown with all of its lines, and its head says how many rows there are
/// and how many are marked.
pub proof fn law_list_is_shown(u: ManagerView, now: u64, width: u16, height: u16)
    requires
        !(u.mode is Detail),
        height >= 5,
        width >= 24,
    ensures
        match sessions_draw::page_of(u, now, width, height) {
            Some(PageView::List { tabs, context, context_style, text: s, scroll }) => {
                &&& s == scan::join_lines(sessions_draw::list_lines(u, now))
                &&& tabs.len() == 7
                &&& scan::occurs(tabs[4].content, text::decimal(u.rows()))
                &&& scan::occurs(
                    tabs[4].content,
                    text::decimal(sessions_draw::mark_count(u)),
                )
                &&& tabs[0].style.bg is Some <==> u.tab == Tab::Sessions
                &&& tabs[2].style.bg is Some <==> u.tab == Tab::Memories
                &&& u.mode is ConfirmDelete ==> scan::occurs(
                    context,
                    text::decimal(u.candidates().len()),
                )
            },
            _ => false,
        },
{
    lemma_counts(u);
    let c = text::decimal(u.candidates().len());
    lemma_in(
        "⚠ 删除确认:将删 "@,
        c,
        " 条(y 确认 / n 或 Esc 取消)"@,
        "⚠ 删除确认:将删 "@ + c + " 条(y 确认 / n 或 Esc 取消)"@,
    );
}

proof fn lemma_counts(u: ManagerView)
    ensures
        scan::occurs(sessions_draw::counts(u), text::decimal(u.rows())),
        scan::occurs(sessions_draw::counts(u), text::decimal(sessions_draw::mark_count(u))),
{
    let s = sessions_draw::counts(u);
    let n = text::decimal(u.rows());
    let m = text::decimal(sessions_draw::mark_count(u));
    let gap = "    "@;
    if u.filter.len() == 0 {
        let mid = " 条 · 已选 "@;
        assert(s =~= "共 "@ + n + (mid + m + gap));
        lemma_in("共 "@, n, mid + m + gap, s);
        lemma_in("共 "@ + n + mid, m, gap, s);
    } else {
        let f = ansi::stripped(u.filter);
        let k = text::decimal(u.visible_before(u.rows()));
        let a = " 条 · 筛选「"@;
        let b = "」命中 "@;
        let d = " 条 · 已选 "@;
        assert(s =~= "共 "@ + n + (a + f + b + k + d + m + gap));
        lemma_in("共 "@, n, a + f + b + k + d + m + gap, s);
        lemma_in("共 "@ + n + a + f + b + k + d, m, gap, s);
    }
}

// ---------------------------------------------------------------- the input line

proof fn lemma_rows_add(a: Seq<Seq<char>>, b: Seq<Seq<char>>, w: nat)
    ensures
        input_box::rows(a + b, w) == input_box::rows(a, w) + input_box::rows(b, w),
    decreases b.len(),
{
    if b.len() == 0 {
        assert(a + b =~= a);
        assert(input_box::rows(a, w) + input_box::rows(b, w) =~= input_box::rows(a, w));
    } else {
        lemma_rows_add(a, b.drop_last(), w);
        assert((a + b).drop_last() =~= a + b.drop_last());
        assert((a + b).last() == b.last());
        let x = input_box::rows(a, w);
        let y = input_box::rows(b.drop_last(), w);
        let z = input_box::rows_of(b.last(), w);
        assert(x + y + z =~= x + (y + z));
    }
}

/// The text that is typed is drawn line by line: the rows of two lines are those of the
/// first and behind them those of the second. The rows of a line make up the line, and
/// an empty line takes one row.
pub proof fn law_typed_text_is_drawn(a: Seq<char>, b: Seq<char>, w: nat)
    requires
        plain(b),
        !b.contains('\n'),
    ensures
        input_box::text_rows(a.push('\n') + b, w) == input_box::text_rows(a, w)
            + input_box::text_rows(b, w),
        ansi::joined(input_box::text_rows(b, w)) == b,
        input_box::text_rows(b, w).len() >= 1,
        b.len() == 0 ==> input_box::text_rows(b, w).len() == 1,
{
    text_laws::law_fields_are_parted(a, '\n', b);
    lemma_rows_add(scan::fields(a, '\n'), scan::fields(b, '\n'), w);
    lemma_one_line(b, w);
}

proof fn lemma_one_line(b: Seq<char>, w: nat)
    requires
        plain(b),
        !b.contains('\n'),
    ensures
        ansi::joined(input_box::text_rows(b, w)) == b,
        ansi::joined(md::wrapped(b, w)) == b,
        input_box::text_rows(b, w) == input_box::rows_of(b, w),
        input_box::text_rows(b, w).len() >= 1,
        b.len() == 0 ==> input_box::text_rows(b, w).len() == 1,
{
    let e = Seq::<char>::empty();
    text_laws::law_text_without_separator(b, '\n');
    let f = seq![b];
    assert(f.drop_last() =~= Seq::<Seq<char>>::empty());
    assert(f.last() == b);
    reveal_with_fuel(input_box::rows, 2);
    assert(input_box::rows(f, w) =~= input_box::rows_of(b, w));
    ansi::law_strip_keeps_clean_text(b);
    md::law_wrap_keeps_text(b, w);
    let segs = md::wrapped(b, w);
    let one = seq![e];
    assert(one.drop_last() =~= Seq::<Seq<char>>::empty());
    assert(ansi::joined(one.drop_last()) =~= e);
    assert(ansi::joined(one) =~= e);
    if segs.len() == 0 {
        assert(ansi::joined(segs) =~= e);
    }
    if b.len() == 0 {
        lemma_no_empty_rows(b, w);
    }
}

proof fn lemma_no_empty_rows(b: Seq<char>, w: nat)
    requires
        b.len() == 0,
        ansi::joined(md::wrapped(b, w)) == b,
    ensures
        md::wrapped(b, w).len() <= 1,
{
    let segs = md::wrapped(b, w);
    if w > 2 && segs.len() > 0 {
        md::law_wrap_fits(b, w, segs.len() - 1);
        assert(segs.last().len() > 0);
    }
    if w <= 2 && segs.len() > 1 {
        ansi::law_strip_keeps_clean_text(b);
    }
}

proof fn lemma_found(segs: Seq<Seq<char>>, col: int, i: int)
    requires
        0 <= i <= segs.len(),
        0 <= col <= ansi::joined(segs).len() - ansi::joined(segs.take(i)).len(),
        segs.len() > 0,
        i < segs.len() || col == 0,
    ensures
        i < segs.len() ==> {
            let (r, c) = input_box::find_row(segs, col, i);
            &&& i <= r < segs.len()
            &&& 0 <= c <= segs[r].len()
            &&& ansi::joined(segs.take(r)) + segs[r].take(c) == ansi::joined(segs).take(
                ansi::joined(segs.take(i)).len() + col,
            )
        },
    decreases segs.len() - i,
{
    if i < segs.len() {
        lemma_joined_part(segs, i);
        let before = ansi::joined(segs.take(i));
        assert(segs.take(i + 1).drop_last() =~= segs.take(i));
        assert(segs.take(i + 1).last() == segs[i]);
        let upto = ansi::joined(segs.take(i + 1));
        assert(upto == before + segs[i]);
        lemma_joined_part(segs, i + 1);
        let all = ansi::joined(segs);
        if col <= segs[i].len() {
            assert(before + segs[i].take(col) =~= all.take(before.len() + col)) by {
                assert(all.take(upto.len() as int) =~= upto);
                assert(all.take(before.len() + col) =~= upto.take(before.len() + col));
            }
        } else {
            if i + 1 == segs.len() {
                assert(segs.take(i + 1) =~= segs);
            }
            lemma_found(segs, col - segs[i].len(), i + 1);
        }
    }
}

proof fn lemma_joined_part(segs: Seq<Seq<char>>, i: int)
    requires
        0 <= i <= segs.len(),
    ensures
        ansi::joined(segs.take(i)).len() <= ansi::joined(segs).len(),
        ansi::joined(segs).take(ansi::joined(segs.take(i)).len() as int) == ansi::joined(
            segs.take(i),
        ),
    decreases segs.len() - i,
{
    if i == segs.len() {
        assert(segs.take(i) =~= segs);
        assert(ansi::joined(segs).take(ansi::joined(segs).len() as int) =~= ansi::joined(segs));
    } else {
        lemma_joined_part(segs, i + 1);
        assert(segs.take(i + 1).drop_last() =~= segs.take(i));
        let a = ansi::joined(segs.take(i));
        let b = ansi::joined(segs.take(i + 1));
        assert(b == a + segs.take(i + 1).last());
        assert(ansi::joined(segs).take(a.len() as int) =~= b.take(a.len() as int));
        assert(b.take(a.len() as int) =~= a);
    }
}

/// The cursor is drawn where it stands: what the rows in front of its row hold, and what
/// its row holds in front of it, is the text in front of it.
pub proof fn law_cursor_is_drawn_where_it_stands(x: Seq<char>, y: Seq<char>, w: nat)
    requires
        plain(x + y),
        !(x + y).contains('\n'),
    ensures
        ({
            let s = x + y;
            let rs = input_box::text_rows(s, w);
            let (r, c) = input_box::caret(s, editor::byte_len(x), w);
            &&& 0 <= r < rs.len()
            &&& 0 <= c <= rs[r].len()
            &&& ansi::joined(rs.take(r)) + rs[r].take(c) == x
        }),
{
    let s = x + y;
    let e = Seq::<char>::empty();
    let n = x.len() as int;
    assert(s.take(n) =~= x);
    editor::lemma_begun_place(s, n);
    lemma_one_line(s, w);
    text_laws::law_text_without_separator(s, '\n');
    assert(!x.contains('\n')) by {
        assert forall|i: int| 0 <= i < x.len() implies x[i] != '\n' by {
            assert(s[i] == x[i]);
            assert(s.contains(s[i]));
        }
    }
    text_laws::law_text_without_separator(x, '\n');
    let lines = scan::fields(s, '\n');
    assert(lines =~= seq![s]);
    assert(lines.take(0) =~= Seq::<Seq<char>>::empty());
    assert(input_box::rows(lines.take(0), w).len() == 0);
    assert(input_box::cursor_cell(s, editor::byte_len(x)) == (0int, n));
    let segs = md::wrapped(s, w);
    let rs = input_box::text_rows(s, w);
    if segs.len() > 0 {
        assert(segs.take(0) =~= Seq::<Seq<char>>::empty());
        assert(ansi::joined(segs.take(0)) =~= e);
        lemma_found(segs, n, 0);
        assert(rs == segs);
    } else {
        assert(ansi::joined(segs) =~= e);
        assert(s =~= e);
        assert(x =~= e);
        assert(rs =~= seq![e]);
        assert(rs.take(0) =~= Seq::<Seq<char>>::empty());
        assert(ansi::joined(rs.take(0)) + rs[0].take(0) =~= e);
    }
}

/// The row with the cursor shows its text, one span for each character, and the cursor
/// on the one that it stands on.
pub proof fn law_cursor_marks_one_character(seg: Seq<char>, col: int)
    ensures
        input_box::marked(seg, col).len() == seg.len(),
        forall|i: int|
            0 <= i < seg.len() ==> (#[trigger] input_box::marked(seg, col)[i]).content == seq![seg[i]],
        forall|i: int|
            0 <= i < seg.len() ==> ((#[trigger] input_box::marked(seg, col)[i]).style.bg == Some(
                Color::Cyan,
            ) <==> i == col),
    decreases seg.len(),
{
    if seg.len() > 0 {
        let t = seg.drop_last();
        law_cursor_marks_one_character(t, col);
        let m = input_box::marked(t, col);
        let r = input_box::marked(seg, col);
        assert forall|i: int| 0 <= i < seg.len() implies (#[trigger] r[i]).content == seq![seg[i]]
            && (r[i].style.bg == Some(Color::Cyan) <==> i == col) by {
            if i < t.len() {
                assert(r[i] == m[i]);
                assert(t[i] == seg[i]);
            }
        }
    }
}

/// A row without the cursor shows its text behind its prefix: the first row of all behind
/// the mark and the label, every other behind as many blanks.
pub proof fn law_rows_stand_behind_their_prefix(
    row: Seq<char>,
    first: bool,
    label: Seq<char>,
    col: int,
    g: Option<Seq<char>>,
)
    ensures
        ({
            let l = input_box::row_line(row, first, label, false, col, g);
            let p = seq!['❯'] + label + seq![' '];
            &&& l.len() == 2 && l[1].content == row
            &&& first ==> l[0].content == p
            &&& !first ==> l[0].content.len() == p.len() && forall|i: int|
                0 <= i < p.len() ==> #[trigger] l[0].content[i] == ' '
        }),
        ({
            let l = input_box::row_line(row, first, label, true, col, g);
            &&& l.len() >= 1 + row.len()
            &&& forall|i: int|
                0 <= i < row.len() ==> (#[trigger] l[1 + i]).content == seq![row[i]]
            &&& 0 <= col < row.len() ==> l[1 + col].style.bg == Some(Color::Cyan)
            &&& col >= row.len() ==> l.len() >= 2 + row.len() && l[1 + row.len() as int].style.bg
                == Some(Color::Cyan)
        }),
{
    reveal_strlit("❯");
    reveal_strlit(" ");
    assert("❯"@ + label + " "@ =~= seq!['❯'] + label + seq![' ']);
    law_cursor_marks_one_character(row, col);
    let m = input_box::marked(row, col);
    let l = input_box::row_line(row, first, label, true, col, g);
    let t = input_box::tail_mark(row, col);
    assert forall|i: int| 0 <= i < row.len() implies (#[trigger] l[1 + i]) == m[i] by {}
    if 0 <= col < row.len() {
        assert(l[1 + col] == m[col]);
    }
    if col >= row.len() {
        assert(l[1 + row.len() as int] == t[0]);
    }
}

// ------------------------------------------------------------------------ notices

/// Every server that did not start is told with its reason, in their order, and those
/// that did are told in one line.
pub proof fn law_servers_are_told(
    errors: Seq<(Seq<char>, Seq<char>)>,
    names: Seq<Seq<char>>,
    i: int,
)
    requires
        0 <= i < errors.len(),
    ensures
        ({
            let r = agent::server_notes(errors, names);
            &&& r.len() == errors.len() + (if names.len() > 0 {
                1int
            } else {
                0
            })
            &&& scan::occurs(r[i], errors[i].0)
            &&& scan::occurs(r[i], errors[i].1)
        }),
        names.len() == 1 ==> scan::occurs(agent::server_notes(errors, names).last(), names[0]),
{
    lemma_failed(errors, i);
    let e = Seq::<char>::empty();
    if names.len() == 1 {
        let a = "🔌 MCP servers: "@;
        assert(a + names[0] + e =~= a + names[0]);
        lemma_in(a, names[0], e, a + names[0]);
    }
}

proof fn lemma_failed(errors: Seq<(Seq<char>, Seq<char>)>, i: int)
    requires
        0 <= i < errors.len(),
    ensures
        agent::failed_servers(errors).len() == errors.len(),
        scan::occurs(agent::failed_servers(errors)[i], errors[i].0),
        scan::occurs(agent::failed_servers(errors)[i], errors[i].1),
    decreases errors.len(),
{
    let t = errors.drop_last();
    let e = Seq::<char>::empty();
    lemma_failed_len(t);
    if i < t.len() {
        lemma_failed(t, i);
        assert(t[i] == errors[i]);
    } else {
        let (n, x) = errors.last();
        let s = "⚠ MCP "@ + n + ": "@ + x;
        assert(s =~= "⚠ MCP "@ + n + (": "@ + x));
        lemma_in("⚠ MCP "@, n, ": "@ + x, s);
        assert(s =~= "⚠ MCP "@ + n + ": "@ + x + e);
        lemma_in("⚠ MCP "@ + n + ": "@, x, e, s);
    }
}

proof fn lemma_failed_len(errors: Seq<(Seq<char>, Seq<char>)>)
    ensures
        agent::failed_servers(errors).len() == errors.len(),
    decreases errors.len(),
{
    if errors.len() > 0 {
        lemma_failed_len(errors.drop_last());
    }
}

/// What loading an earlier session came to is told with the number of its messages and
/// its file, or with the reason why it failed.
pub proof fn law_loading_is_told(n: usize, path: Seq<char>, e: String)
    ensures
        scan::occurs(agent::history_note(Ok(n), path), text::decimal(n as nat)),
        scan::occurs(agent::history_note(Ok(n), path), path),
        scan::occurs(agent::history_note(Err(e), path), e@),
        n > 0 ==> agent::compact_note(Ok(n)) is None,
        agent::compact_note(Ok(0)) is Some,
        agent::compact_note(Err(e)) is Some && scan::occurs(
            agent::compact_note(Err(e))->Some_0,
            e@,
        ),
{
    let z = Seq::<char>::empty();
    let a = "已恢复历史会话("@;
    let d = text::decimal(n as nat);
    let b = " 条消息),可继续对话。历史文件:"@;
    let c = "\n⚠ 恢复后最好核对一下上下文,模型未必理解此前的中间状态。"@;
    let s = a + d + b + path + c;
    assert(s =~= a + d + (b + path + c));
    lemma_in(a, d, b + path + c, s);
    lemma_in(a + d + b, path, c, s);
    let f = "恢复历史失败: "@;
    assert(f + e@ + z =~= f + e@);
    lemma_in(f, e@, z, f + e@);
    let g = "⚠ 上下文压缩失败: "@;
    assert(g + e@ + z =~= g + e@);
    lemma_in(g, e@, z, g + e@);
}

// ------------------------------------------------------------------------- names

/// The names of the settings.
pub proof fn law_settings_have_names(n: Seq<char>)
    ensures
        n == "retry"@ || n == "重试"@ ==> quick_cfg::named_item(n) == Some(QcItem::Retry),
        n == "window"@ || n == "ctx"@ || n == "上下文"@ || n == "context"@ || n
            == "context-window"@ ==> quick_cfg::named_item(n) == Some(QcItem::ContextWindow),
        n == "turns"@ || n == "max-turns"@ || n == "轮次"@ || n == "maxturns"@
            ==> quick_cfg::named_item(n) == Some(QcItem::MaxTurns),
        n == "key"@ || n == "apikey"@ || n == "api-key"@ ==> quick_cfg::named_item(n) == Some(
            QcItem::ApiKey,
        ),
        n == "model"@ || n == "模型"@ ==> quick_cfg::named_item(n) == Some(QcItem::Model),
        n == "url"@ || n == "base-url"@ || n == "baseurl"@ || n == "端点"@
            ==> quick_cfg::named_item(n) == Some(QcItem::BaseUrl),
        n == "protocol"@ || n == "协议"@ ==> quick_cfg::named_item(n) == Some(QcItem::Protocol),
        n == "provider"@ || n == "服务商"@ ==> quick_cfg::named_item(n) == Some(QcItem::Provider),
        n == "session-header"@ || n == "sessionheader"@ || n == "会话头"@
            ==> quick_cfg::named_item(n) == Some(QcItem::SessionHeader),
        n == "proxy"@ || n == "代理"@ || n == "网络代理"@ || n == "network-proxy"@
            ==> quick_cfg::named_item(n) == Some(QcItem::Proxy),
{
    reveal_strlit("retry");
    reveal_strlit("重试");
    reveal_strlit("window");
    reveal_strlit("ctx");
    reveal_strlit("上下文");
    reveal_strlit("context");
    reveal_strlit("context-window");
    reveal_strlit("turns");
    reveal_strlit("max-turns");
    reveal_strlit("轮次");
    reveal_strlit("maxturns");
    reveal_strlit("key");
    reveal_strlit("apikey");
    reveal_strlit("api-key");
    reveal_strlit("model");
    reveal_strlit("模型");
    reveal_strlit("url");
    reveal_strlit("base-url");
    reveal_strlit("baseurl");
    reveal_strlit("端点");
    reveal_strlit("protocol");
    reveal_strlit("协议");
    reveal_strlit("provider");
    reveal_strlit("服务商");
    reveal_strlit("session-header");
    reveal_strlit("sessionheader");
    reveal_strlit("会话头");
    reveal_strlit("proxy");
    reveal_strlit("代理");
    reveal_strlit("网络代理");
    reveal_strlit("network-proxy");
    assert("retry"@[0] == 'r' && "重试"@[0] == '重');
    assert("window"@[0] == 'w' && "ctx"@[0] == 'c' && "上下文"@[0] == '上');
    assert("context"@[0] == 'c' && "context-window"@[0] == 'c');
    assert("turns"@[0] == 't' && "max-turns"@[0] == 'm' && "轮次"@[0] == '轮');
    assert("maxturns"@[0] == 'm' && "key"@[0] == 'k' && "apikey"@[0] == 'a');
    assert("api-key"@[0] == 'a' && "model"@[0] == 'm' && "模型"@[0] == '模');
    assert("max-turns"@[1] == 'a' && "maxturns"@[1] == 'a' && "model"@[1] == 'o');
    assert("url"@[0] == 'u' && "base-url"@[0] == 'b' && "baseurl"@[0] == 'b');
    assert("端点"@[0] == '端' && "协议"@[0] == '协' && "服务商"@[0] == '服');
    assert("protocol"@[0] == 'p' && "provider"@[0] == 'p' && "proxy"@[0] == 'p');
    assert("protocol"@[3] == 't' && "provider"@[3] == 'v' && "proxy"@[3] == 'x');
    assert("session-header"@[0] == 's' && "sessionheader"@[0] == 's');
    assert("会话头"@[0] == '会' && "代理"@[0] == '代' && "网络代理"@[0] == '网');
    assert("network-proxy"@[0] == 'n');
}

/// What the manager says beside the list: what was last done, in one colour where it
/// went well and in another where it did not; the note or the filter that is being
/// typed.
pub proof fn law_context_is_shown(u: ManagerView, t: Seq<char>, ok: bool)
    requires
        plain(t),
        t.len() > 0,
    ensures
        u.mode == ModeView::Browse && u.status == Some((ok, t)) ==> {
            let c = sessions_draw::context_line(u);
            c.1 == t && c.0.fg == Some(
                if ok {
                    Color::Green
                } else {
                    Color::Red
                },
            )
        },
        u.mode == ModeView::EditNote(t) ==> scan::occurs(sessions_draw::context_line(u).1, t),
        u.mode == ModeView::Filter(t) ==> scan::occurs(sessions_draw::context_line(u).1, t),
{
    ansi::law_strip_keeps_clean_text(t);
    let e = Seq::<char>::empty();
    let a = sessions_draw::context_line(u).1;
    if u.mode == ModeView::EditNote(t) {
        let front = "✎ 备注(Enter 保存 / Esc 取消,≤"@ + text::decimal(
            crate::sessions_ui::NOTE_MAX_LEN as nat,
        ) + " 字): "@;
        assert(a == front + t);
        assert(a =~= front + t + e);
        lemma_in(front, t, e, a);
    }
    if u.mode == ModeView::Filter(t) {
        let front = "🔍 过滤(输入即时筛选;Enter 保留筛选,Esc 清除): /"@;
        assert(a == front + t);
        assert(a =~= front + t + e);
        lemma_in(front, t, e, a);
    }
}

/// In a text of several lines the cursor is drawn in the rows of its own line, as it would
/// be in that line alone, below the rows of the lines before.
pub proof fn law_cursor_is_drawn_in_its_line(a: Seq<char>, x: Seq<char>, y: Seq<char>, w: nat)
    requires
        !(x + y).contains('\n'),
    ensures
        ({
            let front = a.push('\n');
            let alone = input_box::caret(x + y, editor::byte_len(x), w);
            let r = input_box::caret(front + x + y, editor::byte_len(front + x), w);
            r.0 == input_box::text_rows(a, w).len() + alone.0 && r.1 == alone.1
        }),
{
    let front = a.push('\n');
    let s = front + x + y;
    let l = x + y;
    let n = (front + x).len() as int;
    assert(s.take(n) =~= front + x);
    editor::lemma_begun_place(s, n);
    assert(l.take(x.len() as int) =~= x);
    editor::lemma_begun_place(l, x.len() as int);
    assert(!x.contains('\n')) by {
        assert forall|i: int| 0 <= i < x.len() implies x[i] != '\n' by {
            assert(l[i] == x[i]);
            assert(l.contains(l[i]));
        }
    }
    text_laws::law_fields_are_parted(a, '\n', x);
    text_laws::law_fields_are_parted(a, '\n', l);
    text_laws::law_text_without_separator(x, '\n');
    text_laws::law_text_without_separator(l, '\n');
    assert(s =~= front + l);
    let fa = scan::fields(a, '\n');
    let lines = scan::fields(s, '\n');
    assert(lines =~= fa.push(l));
    assert(scan::fields(front + x, '\n') =~= fa.push(x));
    assert(lines.take(fa.len() as int) =~= fa);
    assert(lines[fa.len() as int] == l);
    let one = scan::fields(l, '\n');
    assert(one =~= seq![l]);
    assert(one.take(0) =~= Seq::<Seq<char>>::empty());
    assert(input_box::rows(one.take(0), w).len() == 0);
}

/// The parts of the list lie below each other, as wide as the frame's inside, and fill
/// it: two single rows, and the rest.
pub proof fn law_list_is_parted(inner: Rect)
    requires
        inner.height >= 2,
        inner.y + inner.height <= 65535,
    ensures
        ({
            let (a, b, c) = sessions_draw::list_parts(inner);
            &&& a.x == inner.x && b.x == inner.x && c.x == inner.x
            &&& a.width == inner.width && b.width == inner.width && c.width == inner.width
            &&& a.y == inner.y && a.height == 1
            &&& b.y == a.y + a.height && b.height == 1
            &&& c.y == b.y + b.height
            &&& c.y + c.height == inner.y + inner.height
        }),
{
}

} // verus!
