//! What the session manager is for: rows are found, marked, deleted, annotated, resumed
//! and read as its keys say.
use crate::input::KeyCode;
use crate::scan;
use crate::sessions_ui;
use crate::sessions_ui::{ManagerView, ModeView, Tab, UiView};
use crate::text;
use crate::text_laws;
use vstd::prelude::*;

verus! {

// ----------------------------------------------------------------------- lower case

proof fn lemma_small_add(a: Seq<char>, b: Seq<char>)
    ensures
        text::small_text(a + b) == text::small_text(a) + text::small_text(b),
    decreases b.len(),
{
    if b.len() == 0 {
        assert(a + b =~= a);
        assert(text::small_text(a) + text::small_text(b) =~= text::small_text(a));
    } else {
        lemma_small_add(a, b.drop_last());
        assert((a + b).drop_last() =~= a + b.drop_last());
        assert((a + b).last() == b.last());
        assert(text::small_text(a + b) =~= text::small_text(a) + text::small_text(b));
    }
}

/// The lower case of a text of ASCII and ideographs: capitals become small letters, and
/// every other character stays, at its place. The lower case of two such texts, one
/// behind the other, is that of both.
pub proof fn law_lower_case(s: Seq<char>, i: int)
    requires
        text::all_simple(s),
        0 <= i < s.len(),
    ensures
        text::low(s).len() == s.len(),
        'A' <= s[i] <= 'Z' ==> text::low(s)[i] as u32 == s[i] as u32 + 32,
        !('A' <= s[i] <= 'Z') ==> text::low(s)[i] == s[i],
{
    assert(!s.contains('Σ')) by {
        if s.contains('Σ') {
            let k = choose|k: int| 0 <= k < s.len() && s[k] == 'Σ';
            assert(text::is_simple(s[k]));
        }
    }
    lemma_small_simple(s, i);
}

proof fn lemma_small_simple(s: Seq<char>, i: int)
    requires
        text::all_simple(s),
        0 <= i <= s.len(),
    ensures
        text::small_text(s).len() == s.len(),
        i < s.len() ==> text::small_text(s)[i] == text::ascii_lower(s[i]),
    decreases s.len(),
{
    if s.len() > 0 {
        let t = s.drop_last();
        assert forall|k: int| 0 <= k < t.len() implies text::is_simple(#[trigger] t[k]) by {
            assert(t[k] == s[k]);
        }
        assert(text::is_simple(s[s.len() - 1]));
        if i < t.len() {
            lemma_small_simple(t, i);
        } else {
            lemma_small_simple(t, 0);
        }
    }
}

// -------------------------------------------------------------------------- finding

/// A text without the letter whose small form depends on where it stands.
pub open spec fn even(s: Seq<char>) -> bool {
    !s.contains('Σ')
}

proof fn lemma_hay(a: Seq<char>, b: Seq<char>)
    requires
        even(a),
        even(b),
    ensures
        even(a + " "@ + b),
        text::small_text(a + " "@ + b) == text::small_text(a).push(' ') + text::small_text(b),
{
    reveal_strlit(" ");
    let s = a + " "@ + b;
    if s.contains('Σ') {
        let k = choose|k: int| 0 <= k < s.len() && s[k] == 'Σ';
        if k < a.len() {
            assert(a[k] == 'Σ');
        } else if k > a.len() {
            assert(b[k - a.len() - 1] == 'Σ');
        }
    }
    lemma_small_add(a + " "@, b);
    lemma_small_add(a, " "@);
    let e = Seq::<char>::empty();
    assert(" "@.drop_last() =~= e);
    assert(" "@.last() == ' ');
    assert(text::small_text(e) =~= e);
    assert(text::small_text(" "@) =~= seq![' ']);
    assert(text::small_text(a) + seq![' '] =~= text::small_text(a).push(' '));
}

proof fn lemma_found(a: Seq<char>, b: Seq<char>, f: Seq<char>)
    ensures
        scan::occurs(a, f) || scan::occurs(b, f) ==> scan::occurs(a.push(' ') + b, f),
        f.len() > 0 && !f.contains(' ') && scan::occurs(a.push(' ') + b, f) ==> scan::occurs(a, f)
            || scan::occurs(b, f),
{
    let s = a.push(' ') + b;
    let e = Seq::<char>::empty();
    if scan::occurs(a, f) {
        text_laws::law_parts_of_parts_occur(e, a, seq![' '] + b, f);
        assert(e + a + (seq![' '] + b) =~= s);
    }
    if scan::occurs(b, f) {
        text_laws::law_parts_of_parts_occur(a.push(' '), b, e, f);
        assert(a.push(' ') + b + e =~= s);
    }
    if f.len() > 0 && !f.contains(' ') && scan::occurs(s, f) {
        text_laws::law_parts_stand_on_one_side(a, ' ', b, f);
    }
}

/// A memory is shown whenever its name, its description, its file name or its type
/// holds the filter, in lower case; and where the filter is one word, only then. Without
/// a filter every one is shown.
pub proof fn law_memories_are_found(u: ManagerView, i: int)
    requires
        u.tab == Tab::Memories,
        0 <= i < u.mems.len(),
        even(u.mems[i].name) && even(u.mems[i].desc) && even(u.mems[i].filename) && even(
            u.mems[i].mtype,
        ),
    ensures
        ({
            let m = u.mems[i];
            let f = u.active_filter();
            let found = scan::occurs(text::low(m.name), f) || scan::occurs(text::low(m.desc), f)
                || scan::occurs(text::low(m.filename), f) || scan::occurs(text::low(m.mtype), f);
            &&& found ==> u.visible(i)
            &&& f.len() == 0 ==> u.visible(i)
            &&& f.len() > 0 && !f.contains(' ') && u.visible(i) ==> found
        }),
{
    let m = u.mems[i];
    let f = u.active_filter();
    let ab = m.name + " "@ + m.desc;
    let abc = ab + " "@ + m.filename;
    lemma_hay(m.name, m.desc);
    lemma_hay(ab, m.filename);
    lemma_hay(abc, m.mtype);
    lemma_found(text::small_text(m.name), text::small_text(m.desc), f);
    lemma_found(text::small_text(ab), text::small_text(m.filename), f);
    lemma_found(text::small_text(abc), text::small_text(m.mtype), f);
    assert(u.hay(i) == abc + " "@ + m.mtype);
}

/// A session is shown whenever its note or its id holds the filter, in lower case; and
/// where the filter is one word and no part of `true` and `false`, only then. Without a
/// filter every one is shown.
pub proof fn law_sessions_are_found(u: ManagerView, i: int)
    requires
        u.tab == Tab::Sessions,
        0 <= i < u.sessions.len(),
        even(u.sessions[i].id),
        u.sessions[i].note is Some ==> even(u.sessions[i].note->0),
    ensures
        ({
            let s = u.sessions[i];
            let f = u.active_filter();
            let found = scan::occurs(text::low(s.id), f) || (s.note is Some && scan::occurs(
                text::low(s.note->0),
                f,
            ));
            &&& found ==> u.visible(i)
            &&& f.len() == 0 ==> u.visible(i)
            &&& f.len() > 0 && !f.contains(' ') && u.visible(i) && !scan::occurs("true"@, f)
                && !scan::occurs("false"@, f) ==> found
        }),
{
    let s = u.sessions[i];
    let f = u.active_filter();
    let note = crate::settings::text_or_empty(s.note);
    let b = text::bool_name(s.headless);
    reveal_strlit("true");
    reveal_strlit("false");
    reveal_strlit("");
    assert(even(b)) by {
        if b.contains('Σ') {
            let k = choose|k: int| 0 <= k < b.len() && b[k] == 'Σ';
            assert(b[k] == 'Σ');
        }
    }
    assert(text::small_text(b) =~= b) by {
        assert forall|k: int| 0 <= k < b.len() implies text::is_simple(#[trigger] b[k]) by {}
        lemma_small_simple(b, 0);
        assert forall|k: int| 0 <= k < b.len() implies text::small_text(b)[k] == b[k] by {
            lemma_small_simple(b, k);
        }
    }
    if s.note is None {
        assert(note =~= Seq::<char>::empty());
        assert(text::small_text(note) =~= Seq::<char>::empty());
        if f.len() > 0 && scan::occurs(text::small_text(note), f) {
            let (x, y) = text_laws::law_what_occurs_is_a_part(text::small_text(note), f);
            assert((x + f + y).len() > 0);
        }
    }
    let ab = note + " "@ + s.id;
    lemma_hay(note, s.id);
    lemma_hay(ab, b);
    lemma_found(text::small_text(note), text::small_text(s.id), f);
    lemma_found(text::small_text(ab), text::small_text(b), f);
    assert(u.hay(i) == ab + " "@ + b);
}

/// The filter that holds is what is being typed, in lower case, and once it is confirmed
/// it is that still; a key that is typed goes to its end.
pub proof fn law_filter_is_what_is_typed(u: ManagerView, buf: Seq<char>, c: char)
    requires
        u.mode == ModeView::Filter(buf),
        !text::is_control(c),
    ensures
        u.active_filter() == text::low(buf),
        sessions_ui::on_key_of(u, KeyCode::Char(c)).0 == (ManagerView {
            mode: ModeView::Filter(buf.push(c)),
            ..u
        }),
        sessions_ui::on_key_of(u, KeyCode::Enter).0.active_filter() == text::low(buf),
        sessions_ui::on_key_of(u, KeyCode::Enter).0.mode is Browse,
        sessions_ui::on_key_of(u, KeyCode::Esc).0.active_filter().len() == 0,
        sessions_ui::on_key_of(u, KeyCode::Esc).0.mode is Browse,
        buf.len() > 0 ==> sessions_ui::on_key_of(u, KeyCode::Backspace).0.mode == ModeView::Filter(
            buf.drop_last(),
        ),
{
}

/// As many rows are counted as are shown.
pub proof fn law_shown_rows_are_counted(u: ManagerView, n: nat)
    ensures
        u.visible_before(n) == Seq::new(n, |i: int| u.visible(i)).filter(|b: bool| b).len(),
    decreases n,
{
    let v = Seq::new(n, |i: int| u.visible(i));
    reveal(Seq::filter);
    if n > 0 {
        law_shown_rows_are_counted(u, (n - 1) as nat);
        assert(v.drop_last() =~= Seq::new((n - 1) as nat, |i: int| u.visible(i)));
        assert(v.last() == u.visible(n - 1));
    }
}

// --------------------------------------------------------------------------- moving

proof fn lemma_walk_one(u: ManagerView, i: int, j: int, down: bool)
    requires
        0 <= i < u.rows(),
        0 <= j < u.rows(),
        down ==> i < j,
        !down ==> j < i,
        u.visible(j),
        forall|k: int| (i < k < j || j < k < i) ==> !#[trigger] u.visible(k),
    ensures
        u.walk(i, down, 1) == j,
    decreases u.ahead(i, down),
{
    let n = if down {
        i + 1
    } else {
        i - 1
    };
    if n == j {
        assert(u.walk(j, down, 0) == j);
    } else {
        assert(!u.visible(n));
        lemma_walk_one(u, n, j, down);
    }
}

/// An arrow moves the cursor to the next row that is shown, and leaves everything else
/// as it is.
pub proof fn law_arrows_move_to_the_next_row(u: ManagerView, j: int, down: bool)
    requires
        u.mode is Browse,
        u.cursor < u.rows() <= usize::MAX,
        u.visible(u.cursor as int),
        0 <= j < u.rows(),
        down ==> u.cursor < j,
        !down ==> j < u.cursor,
        u.visible(j),
        forall|k: int| (u.cursor < k < j || j < k < u.cursor) ==> !#[trigger] u.visible(k),
    ensures
        ({
            let k = if down {
                KeyCode::Down
            } else {
                KeyCode::Up
            };
            let x = sessions_ui::on_key_of(u, k).0;
            &&& x.cursor == j
            &&& x == (ManagerView { cursor: x.cursor, scroll: x.scroll, ..u })
        }),
{
    let c = u.cursor as int;
    lemma_walk_one(u, c, j, down);
    assert(u.seek(c, down) == c);
    let m = ManagerView { cursor: j as usize, ..u };
    assert(m.visible(j) == u.visible(j));
}

proof fn lemma_walk_all(u: ManagerView, i: int, down: bool, steps: nat)
    requires
        0 <= i < u.rows(),
        steps >= u.ahead(i, down) - 1,
    ensures
        u.walk(i, down, steps) == (if down {
            u.rows() - 1
        } else {
            0
        }),
    decreases u.ahead(i, down),
{
    if steps > 0 {
        let n = if down {
            i + 1
        } else {
            i - 1
        };
        if 0 <= n < u.rows() {
            lemma_walk_all(
                u,
                n,
                down,
                if u.visible(n) {
                    (steps - 1) as nat
                } else {
                    steps
                },
            );
        }
    }
}

/// Without a filter, `Home` moves to the first row and `End` to the last.
pub proof fn law_home_and_end(u: ManagerView)
    requires
        u.mode is Browse,
        u.filter.len() == 0,
        u.cursor < u.rows() <= usize::MAX,
    ensures
        sessions_ui::on_key_of(u, KeyCode::Home).0.cursor == 0,
        sessions_ui::on_key_of(u, KeyCode::End).0.cursor == u.rows() - 1,
{
    let c = u.cursor as int;
    assert(u.seek(c, false) == c && u.seek(c, true) == c);
    lemma_walk_all(u, c, false, (u.cursor + 1) as nat);
    lemma_walk_all(u, c, true, u.rows());
    let a = ManagerView { cursor: 0, ..u };
    let b = ManagerView { cursor: (u.rows() - 1) as usize, ..u };
    assert(a.visible(0) && b.visible(u.rows() - 1));
}

// ------------------------------------------------------------------ marks, deletion

/// Space marks the row under the cursor and no other, and a second time takes the mark
/// off; the current session is not marked.
pub proof fn law_space_marks_one_row(u: ManagerView)
    requires
        u.wf(),
        u.mode is Browse,
        u.rows() > 0,
    ensures
        ({
            let x = sessions_ui::on_key_of(u, KeyCode::Char(' ')).0;
            let c = u.cursor as int;
            &&& u.is_current(c) ==> x.sess_marks == u.sess_marks && x.mem_marks == u.mem_marks
            &&& !u.is_current(c) && u.tab == Tab::Sessions ==> x.sess_marks
                == u.sess_marks.update(c, !u.sess_marks[c]) && x.mem_marks == u.mem_marks
            &&& !u.is_current(c) && u.tab == Tab::Memories ==> x.mem_marks == u.mem_marks.update(
                c,
                !u.mem_marks[c],
            ) && x.sess_marks == u.sess_marks
            &&& x.sessions == u.sessions && x.mems == u.mems && x.cursor == u.cursor && x.mode
                == u.mode && x.tab == u.tab
        }),
{
    lemma_browse(u, KeyCode::Char(' '));
    lemma_space(u);
}

proof fn lemma_browse(u: ManagerView, k: KeyCode)
    requires
        u.mode is Browse,
    ensures
        sessions_ui::on_key_of(u, k) == sessions_ui::browse_key(u, k),
{
}

proof fn lemma_space(u: ManagerView)
    ensures
        sessions_ui::browse_key(u, KeyCode::Char(' ')).0 == sessions_ui::mark_toggled(u),
{
}

proof fn lemma_marked_are_candidates(u: ManagerView, n: nat, i: int)
    requires
        0 <= i < n <= u.marks().len() <= usize::MAX,
    ensures
        u.marked_before(n).contains(i as usize) == (u.marks()[i] && !u.is_current(i)),
    decreases n,
{
    let a = u.marked_before((n - 1) as nat);
    let b = u.marked_before(n);
    if i == n - 1 {
        lemma_below(u, (n - 1) as nat);
        if u.marks()[i] && !u.is_current(i) {
            assert(b[b.len() - 1] == i);
        }
        if a.contains(i as usize) {
            let k = choose|k: int| 0 <= k < a.len() && a[k] == i;
            assert(a[k] < n - 1);
        }
    } else {
        lemma_marked_are_candidates(u, (n - 1) as nat, i);
        if a.contains(i as usize) {
            let k = choose|k: int| 0 <= k < a.len() && a[k] == i;
            assert(b[k] == i);
        }
        if b.contains(i as usize) {
            let k = choose|k: int| 0 <= k < b.len() && b[k] == i;
            assert(a[k] == i);
        }
    }
}

proof fn lemma_below(u: ManagerView, n: nat)
    requires
        n <= u.marks().len() <= usize::MAX,
    ensures
        forall|k: int| 0 <= k < u.marked_before(n).len() ==> #[trigger] u.marked_before(n)[k] < n,
    decreases n,
{
    if n > 0 {
        lemma_below(u, (n - 1) as nat);
        let a = u.marked_before((n - 1) as nat);
        let b = u.marked_before(n);
        assert forall|k: int| 0 <= k < b.len() implies #[trigger] b[k] < n by {
            if k < a.len() {
                assert(b[k] == a[k]);
            }
        }
    }
}

/// What is deleted: every row that is marked, but for the current session, and no row
/// besides; where none is marked, the row under the cursor. The host is handed their
/// files.
pub proof fn law_marked_rows_are_deleted(u: ManagerView, i: int, k: KeyCode)
    requires
        u.wf(),
        u.sessions.len() <= usize::MAX,
        u.mems.len() <= usize::MAX,
        0 <= i < u.rows(),
        u.mode is ConfirmDelete,
        k == KeyCode::Char('y') || k == KeyCode::Char('Y'),
    ensures
        ({
            let c = u.candidates();
            let marked = u.marks()[i] && !u.is_current(i);
            let asked = sessions_ui::on_key_of(u, k).1;
            &&& marked ==> c.contains(i as usize)
            &&& c.contains(i as usize) ==> marked || i == u.cursor
            &&& (forall|j: int| 0 <= j < u.rows() ==> !#[trigger] u.marks()[j]) && !u.is_current(
                u.cursor as int,
            ) ==> c == seq![u.cursor]
            &&& c.contains(i as usize) && u.tab == Tab::Sessions ==> asked is DeleteSessions
                && asked->DeleteSessions_0.len() == c.len()
                && asked->DeleteSessions_0.contains(u.sessions[i].path)
            &&& c.contains(i as usize) && u.tab == Tab::Memories ==> asked is DeleteMemories
                && asked->DeleteMemories_0.len() == c.len()
                && asked->DeleteMemories_0.contains(u.mems[i].filename)
        }),
{
    let n = u.marks().len();
    let c = u.candidates();
    let x = ManagerView { mode: ModeView::Browse, ..u };
    lemma_same_candidates(u, n);
    assert(x.candidates() == c);
    lemma_marked_are_candidates(u, n, i);
    if forall|j: int| 0 <= j < u.rows() ==> !#[trigger] u.marks()[j] {
        lemma_none_marked(u, n);
    }
    if c.contains(i as usize) {
        let j = choose|j: int| 0 <= j < c.len() && c[j] == i;
        let t = x.targets(c);
        assert(t[j] == (match u.tab {
            Tab::Sessions => u.sessions[i].path,
            Tab::Memories => u.mems[i].filename,
        }));
        assert(t.contains(t[j]));
    }
}

proof fn lemma_same_candidates(u: ManagerView, n: nat)
    ensures
        (ManagerView { mode: ModeView::Browse, ..u }).marked_before(n) == u.marked_before(n),
    decreases n,
{
    if n > 0 {
        lemma_same_candidates(u, (n - 1) as nat);
    }
}

proof fn lemma_none_marked(u: ManagerView, n: nat)
    requires
        n <= u.marks().len(),
        forall|j: int| 0 <= j < u.marks().len() ==> !#[trigger] u.marks()[j],
    ensures
        u.marked_before(n).len() == 0,
    decreases n,
{
    if n > 0 {
        lemma_none_marked(u, (n - 1) as nat);
        assert(!u.marks()[n - 1]);
    }
}

// ------------------------------------------------------------- notes, reading, keys

/// A note that is confirmed is written to the file of the session under the cursor, and
/// kept there without the white space around it; an empty one is taken off. No other
/// row changes.
pub proof fn law_notes_are_kept(u: ManagerView, a: Seq<char>, t: Seq<char>, b: Seq<char>)
    requires
        u.tab == Tab::Sessions,
        u.cursor < u.sessions.len(),
        u.mode == ModeView::EditNote(a + t + b),
        text_laws::blank(a) && text_laws::tight(t) && text_laws::blank(b),
    ensures
        ({
            let (x, asked) = sessions_ui::on_key_of(u, KeyCode::Enter);
            let y = sessions_ui::noted(x, a + t + b, Ok(()));
            let c = u.cursor as int;
            &&& asked == (UiView::WriteNote { path: u.sessions[c].path, text: a + t + b })
            &&& y.sessions.len() == u.sessions.len()
            &&& y.sessions[c].note == (if t.len() == 0 {
                None
            } else {
                Some(t)
            })
            &&& y.sessions[c].path == u.sessions[c].path && y.sessions[c].id == u.sessions[c].id
            &&& forall|i: int|
                0 <= i < u.sessions.len() && i != c ==> #[trigger] y.sessions[i] == u.sessions[i]
            &&& y.mode is Browse
        }),
{
    text_laws::law_trimming_takes_white_space(a, t, b);
}

/// `n` begins with the note that is there, and `/` with the filter that holds.
pub proof fn law_typing_begins_with_what_is_there(u: ManagerView)
    requires
        u.wf(),
        u.mode is Browse,
    ensures
        u.tab == Tab::Sessions && u.sessions.len() > 0 ==> sessions_ui::on_key_of(
            u,
            KeyCode::Char('n'),
        ).0.mode == ModeView::EditNote(
            match u.sessions[u.cursor as int].note {
                Some(n) => n,
                None => Seq::empty(),
            },
        ),
        sessions_ui::on_key_of(u, KeyCode::Char('/')).0.mode == ModeView::Filter(u.filter),
{
    lemma_browse(u, KeyCode::Char('n'));
    lemma_browse(u, KeyCode::Char('/'));
    reveal_strlit("");
    assert(Seq::<char>::empty() =~= ""@);
}

/// `d` and `Delete` ask before anything is deleted, wherever there is something to
/// delete.
pub proof fn law_deleting_asks_first(u: ManagerView)
    requires
        u.mode is Browse,
        u.candidates().len() > 0,
    ensures
        sessions_ui::on_key_of(u, KeyCode::Char('d')).0 == (ManagerView {
            mode: ModeView::ConfirmDelete,
            ..u
        }),
        sessions_ui::on_key_of(u, KeyCode::Delete).0 == (ManagerView {
            mode: ModeView::ConfirmDelete,
            ..u
        }),
{
    lemma_browse(u, KeyCode::Char('d'));
    lemma_browse(u, KeyCode::Delete);
}

/// `Tab` changes to the other page, with its first row that is shown, and `Esc` leaves.
pub proof fn law_pages_change(u: ManagerView)
    requires
        u.mode is Browse,
    ensures
        sessions_ui::on_key_of(u, KeyCode::Tab).0.tab != u.tab,
        sessions_ui::on_key_of(u, KeyCode::Esc).1 is Exit,
{
    lemma_browse(u, KeyCode::Tab);
    lemma_browse(u, KeyCode::Esc);
}

/// `Enter` resumes the session under the cursor, unless it is the current one, and reads
/// the memory under it.
pub proof fn law_enter_takes_the_row_under_the_cursor(u: ManagerView)
    requires
        u.mode is Browse,
        u.visible_before(u.rows()) > 0,
    ensures
        u.tab == Tab::Memories ==> sessions_ui::on_key_of(u, KeyCode::Enter).1
            == UiView::ReadMemory(u.mems[u.cursor as int].filename),
        u.tab == Tab::Sessions && !u.is_current(u.cursor as int) ==> sessions_ui::on_key_of(
            u,
            KeyCode::Enter,
        ).1 == UiView::Resume(u.sessions[u.cursor as int].path),
{
    lemma_browse(u, KeyCode::Enter);
}

/// A deletion that is answered with no leaves everything as it was.
pub proof fn law_deletion_can_be_refused(u: ManagerView, k: KeyCode)
    requires
        u.mode is ConfirmDelete,
        k == KeyCode::Char('n') || k == KeyCode::Char('N') || k == KeyCode::Esc,
    ensures
        sessions_ui::on_key_of(u, k).1 is Idle,
        sessions_ui::on_key_of(u, k).0 == (ManagerView {
            mode: ModeView::Browse,
            status: None,
            ..u
        }),
{
}

/// A memory is read without the block of metadata in front of its text: from `---` to
/// the next line that begins so.
pub proof fn law_metadata_is_not_read(meta: Seq<char>, t: Seq<char>)
    requires
        !scan::occurs(seq!['\n'] + meta, seq!['\n', '-', '-', '-']),
        t.len() > 0 ==> t[0] != '\n',
    ensures
        sessions_ui::without_frontmatter(
            seq!['-', '-', '-', '\n'] + meta + seq!['\n', '-', '-', '-', '\n'] + t,
        ) == t,
        !(t.len() >= 3 && t[0] == '-' && t[1] == '-' && t[2] == '-')
            ==> sessions_ui::without_frontmatter(t) == t,
{
    let p = seq!['\n', '-', '-', '-'];
    let s = seq!['-', '-', '-', '\n'] + meta + seq!['\n', '-', '-', '-', '\n'] + t;
    let rest = s.skip(3);
    let head = seq!['\n'] + meta;
    let n = head.len() as int;
    assert(rest =~= head + p + seq!['\n'] + t);
    lemma_dashes(s);
    lemma_dashes(t);
    lemma_block_end(head, seq!['\n'] + t);
    assert(rest =~= head + p + (seq!['\n'] + t));
    reveal_strlit("\n---");
    assert("\n---"@ =~= p);
    let body = rest.skip(n + 4);
    assert(body =~= seq!['\n'] + t);
    lemma_feed(t);
    assert(body.skip(1) =~= t);
    assert(t.skip(0) =~= t);
}

proof fn lemma_feed(t: Seq<char>)
    requires
        t.len() > 0 ==> t[0] != '\n',
    ensures
        sessions_ui::past_feeds(seq!['\n'] + t, 0) == 1,
        sessions_ui::past_feeds(t, 0) == 0,
{
    let body = seq!['\n'] + t;
    if t.len() > 0 {
        assert(body[1] == t[0]);
    }
    assert(sessions_ui::past_feeds(body, 1) == 1);
}

proof fn lemma_dashes(t: Seq<char>)
    ensures
        "---"@.is_prefix_of(t) == (t.len() >= 3 && t[0] == '-' && t[1] == '-' && t[2] == '-'),
{
    reveal_strlit("---");
    let m = "---"@;
    if t.len() >= 3 && t[0] == '-' && t[1] == '-' && t[2] == '-' {
        assert(m =~= t.take(3));
    }
    if m.is_prefix_of(t) {
        assert(m =~= t.take(3));
        assert(t[0] == m[0] && t[1] == m[1] && t[2] == m[2]);
    }
}

proof fn lemma_block_end(head: Seq<char>, tail: Seq<char>)
    requires
        !scan::occurs(head, seq!['\n', '-', '-', '-']),
    ensures
        scan::first_at(
            head + seq!['\n', '-', '-', '-'] + tail,
            seq!['\n', '-', '-', '-'],
            0,
        ) == head.len(),
{
    let p = seq!['\n', '-', '-', '-'];
    let rest = head + p + tail;
    let n = head.len() as int;
    assert(rest.subrange(n, n + 4) =~= p);
    assert forall|j: int| 0 <= j < n implies !scan::stands_at(rest, p, j) by {
        if scan::stands_at(rest, p, j) {
            let q = rest.subrange(j, j + 4);
            assert(q == p);
            if j + 4 <= n {
                assert(head.subrange(j, j + 4) =~= q);
                assert(scan::stands_at(head, p, j));
            } else {
                assert(rest[n] == p[0]);
                assert(q[n - j] == rest[n]);
                assert(p[n - j] == '-');
            }
        }
    }
    lemma_first_at(rest, p, 0, n);
}

proof fn lemma_first_at(s: Seq<char>, p: Seq<char>, i: int, n: int)
    requires
        0 <= i <= n <= s.len(),
        scan::stands_at(s, p, n),
        forall|j: int| 0 <= j < n ==> !scan::stands_at(s, p, j),
    ensures
        scan::first_at(s, p, i) == n,
    decreases n - i,
{
    if i < n {
        assert(!scan::stands_at(s, p, i));
        lemma_first_at(s, p, i + 1, n);
    }
}

// ------------------------------------------------------------------- pages of rows

proof fn lemma_walk_far(u: ManagerView, i: int, down: bool, steps: nat)
    requires
        0 <= i < u.rows(),
        forall|k: int| 0 <= k < u.rows() ==> #[trigger] u.visible(k),
    ensures
        u.walk(i, down, steps) == (if down {
            if i + steps < u.rows() {
                i + steps
            } else {
                u.rows() - 1
            }
        } else {
            if i >= steps {
                i - steps
            } else {
                0
            }
        }),
    decreases u.ahead(i, down),
{
    if steps > 0 {
        let n = if down {
            i + 1
        } else {
            i - 1
        };
        if 0 <= n < u.rows() {
            assert(u.visible(n));
            lemma_walk_far(u, n, down, (steps - 1) as nat);
        }
    }
}

/// The keys for pages move the cursor by ten rows, and no further than to the first or
/// the last.
pub proof fn law_pages_of_rows(u: ManagerView)
    requires
        u.mode is Browse,
        u.cursor < u.rows() <= usize::MAX,
        u.filter.len() == 0,
    ensures
        ({
            let d = sessions_ui::on_key_of(u, KeyCode::PageDown).0;
            let p = sessions_ui::on_key_of(u, KeyCode::PageUp).0;
            &&& d.cursor == (if u.cursor + 10 < u.rows() {
                u.cursor + 10
            } else {
                u.rows() - 1
            })
            &&& p.cursor == (if u.cursor >= 10 {
                u.cursor - 10
            } else {
                0
            })
            &&& d == (ManagerView { cursor: d.cursor, scroll: d.scroll, ..u })
            &&& p == (ManagerView { cursor: p.cursor, scroll: p.scroll, ..u })
        }),
{
    let c = u.cursor as int;
    assert(u.visible(c));
    lemma_walk_far(u, c, true, 10);
    lemma_walk_far(u, c, false, 10);
    let a = ManagerView { cursor: u.walk(c, true, 10) as usize, ..u };
    let b = ManagerView { cursor: u.walk(c, false, 10) as usize, ..u };
    assert(a.visible(a.cursor as int) && b.visible(b.cursor as int));
}

/// A memory that is looked at is scrolled by one line, by fifteen, to its first line or
/// past its last; the key that leaves leads back to the list. Nothing else changes.
pub proof fn law_memories_are_scrolled(
    u: ManagerView,
    title: Seq<char>,
    body: Seq<Seq<char>>,
    o: usize,
)
    requires
        u.mode == (ModeView::Detail { title, body, offset: o }),
        o + 15 <= usize::MAX,
    ensures
        sessions_ui::on_key_of(u, KeyCode::Down) == (
            ManagerView { mode: ModeView::Detail { title, body, offset: (o + 1) as usize }, ..u },
            UiView::Idle,
        ),
        sessions_ui::on_key_of(u, KeyCode::PageDown) == (
            ManagerView { mode: ModeView::Detail { title, body, offset: (o + 15) as usize }, ..u },
            UiView::Idle,
        ),
        o >= 1 ==> sessions_ui::on_key_of(u, KeyCode::Up) == (
            ManagerView { mode: ModeView::Detail { title, body, offset: (o - 1) as usize }, ..u },
            UiView::Idle,
        ),
        o >= 15 ==> sessions_ui::on_key_of(u, KeyCode::PageUp) == (
            ManagerView { mode: ModeView::Detail { title, body, offset: (o - 15) as usize }, ..u },
            UiView::Idle,
        ),
        o < 15 ==> sessions_ui::on_key_of(u, KeyCode::PageUp) == (
            ManagerView { mode: ModeView::Detail { title, body, offset: 0 }, ..u },
            UiView::Idle,
        ),
        sessions_ui::on_key_of(u, KeyCode::Home) == (
            ManagerView { mode: ModeView::Detail { title, body, offset: 0 }, ..u },
            UiView::Idle,
        ),
        sessions_ui::on_key_of(u, KeyCode::End) == (
            ManagerView { mode: ModeView::Detail { title, body, offset: usize::MAX }, ..u },
            UiView::Idle,
        ),
        sessions_ui::on_key_of(u, KeyCode::Esc) == (
            ManagerView { mode: ModeView::Browse, ..u },
            UiView::Idle,
        ),
{
}

/// What is said of a deletion tells how many rows are gone, and how many could not be
/// deleted, where there are such; only without them did it go well.
pub proof fn law_deletions_are_reported(done: nat, failed: nat)
    ensures
        ({
            let (ok, t) = sessions_ui::delete_report(done, failed);
            &&& ok <==> failed == 0
            &&& scan::occurs(t, text::decimal(done))
            &&& failed > 0 ==> scan::occurs(t, text::decimal(failed))
        }),
{
    let d = text::decimal(done);
    let f = text::decimal(failed);
    text_laws::law_parts_occur("✔ 已删除 "@, d, " 条。"@);
    let a = "已删除 "@;
    let b = " 条,"@;
    let c = " 条失败。"@;
    text_laws::law_parts_occur(a, d, b + f + c);
    assert(a + d + (b + f + c) =~= a + d + b + f + c);
    text_laws::law_parts_occur(a + d + b, f, c);
}

// -------------------------------------------------------------------------- notes

/// A character that is typed goes behind the note, as long as that is shorter than two
/// hundred characters; one key takes the last back, and one leaves the note as it was.
pub proof fn law_notes_are_typed(u: ManagerView, buf: Seq<char>, c: char)
    requires
        u.mode == ModeView::EditNote(buf),
        !text::is_control(c),
    ensures
        buf.len() < 200 ==> sessions_ui::on_key_of(u, KeyCode::Char(c)) == (
            ManagerView { mode: ModeView::EditNote(buf.push(c)), ..u },
            UiView::Idle,
        ),
        buf.len() >= 200 ==> sessions_ui::on_key_of(u, KeyCode::Char(c)).0.mode == u.mode
            && sessions_ui::on_key_of(u, KeyCode::Char(c)).0.sessions == u.sessions,
        buf.len() > 0 ==> sessions_ui::on_key_of(u, KeyCode::Backspace) == (
            ManagerView { mode: ModeView::EditNote(buf.drop_last()), ..u },
            UiView::Idle,
        ),
        sessions_ui::on_key_of(u, KeyCode::Esc) == (
            ManagerView { mode: ModeView::Browse, status: None, ..u },
            UiView::Idle,
        ),
{
}

/// A note that could not be written changes no row, and the reason is told.
pub proof fn law_failed_notes_change_nothing(u: ManagerView, s: Seq<char>, e: Seq<char>)
    requires
        u.cursor < u.sessions.len(),
    ensures
        ({
            let x = sessions_ui::noted(u, s, Err(e));
            &&& x == (ManagerView { status: x.status, ..u })
            &&& x.status is Some && !x.status->Some_0.0 && scan::occurs(x.status->Some_0.1, e)
        }),
{
    let z = Seq::<char>::empty();
    text_laws::law_parts_occur("写备注失败: "@, e, z);
    assert("写备注失败: "@ + e + z =~= "写备注失败: "@ + e);
}

/// The current session is not resumed: the user is told, and nothing is asked for.
pub proof fn law_current_session_is_not_resumed(u: ManagerView)
    requires
        u.mode is Browse,
        u.tab == Tab::Sessions,
        u.is_current(u.cursor as int),
    ensures
        sessions_ui::on_key_of(u, KeyCode::Enter).1 == UiView::Idle,
        sessions_ui::on_key_of(u, KeyCode::Enter).0 == (ManagerView {
            status: sessions_ui::on_key_of(u, KeyCode::Enter).0.status,
            ..u
        }),
{
    lemma_browse(u, KeyCode::Enter);
}

/// A memory is opened at its first line, with its name and what it is about for a title,
/// and with the lines of its text without its metadata.
pub proof fn law_memories_are_opened(u: ManagerView, raw: Seq<char>)
    requires
        u.cursor < u.mems.len(),
    ensures
        ({
            let m = u.mems[u.cursor as int];
            let x = sessions_ui::reading(u, raw);
            &&& x == (ManagerView { mode: x.mode, ..u })
            &&& x.mode == (ModeView::Detail {
                title: m.name + " — "@ + m.desc,
                body: scan::line_list(sessions_ui::without_frontmatter(raw)),
                offset: 0,
            })
        }),
{
}

/// The outcomes of a deletion are counted one by one, and told.
pub proof fn law_outcomes_are_counted(v: Seq<bool>, b: bool)
    ensures
        sessions_ui::count_true(v.push(b)) == sessions_ui::count_true(v) + (if b {
            1int
        } else {
            0
        }),
        sessions_ui::count_true(Seq::empty()) == 0,
{
    assert(v.push(b).drop_last() =~= v);
}

/// The letters of the list mean the same in either case, and `x` does what the blank
/// does.
pub proof fn law_letters_stand_for_keys(u: ManagerView)
    requires
        u.mode is Browse,
    ensures
        sessions_ui::on_key_of(u, KeyCode::Char('x')) == sessions_ui::on_key_of(
            u,
            KeyCode::Char(' '),
        ),
        sessions_ui::on_key_of(u, KeyCode::Char('X')) == sessions_ui::on_key_of(
            u,
            KeyCode::Char(' '),
        ),
        sessions_ui::on_key_of(u, KeyCode::Char('D')) == sessions_ui::on_key_of(
            u,
            KeyCode::Char('d'),
        ),
        sessions_ui::on_key_of(u, KeyCode::Char('N')) == sessions_ui::on_key_of(
            u,
            KeyCode::Char('n'),
        ),
{
    lemma_browse(u, KeyCode::Char('x'));
    lemma_browse(u, KeyCode::Char('X'));
    lemma_browse(u, KeyCode::Char(' '));
    lemma_browse(u, KeyCode::Char('D'));
    lemma_browse(u, KeyCode::Char('d'));
    lemma_browse(u, KeyCode::Char('N'));
    lemma_browse(u, KeyCode::Char('n'));
}

} // verus!
