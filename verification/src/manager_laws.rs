//! What the session manager keeps, whatever is done to it: what a deletion leaves, and
//! what holds after any keys.
use crate::input;
use crate::input::KeyCode;
use crate::session_rows::SessionRowView;
use crate::sessions_ui;
use crate::sessions_ui::{ManagerView, ModeView, Tab, UiView};
use vstd::prelude::*;

verus! {

// --------------------------------------------------------------------- removal

/// `s` without what stands at the given places.
pub open spec fn removed_at<A>(s: Seq<A>, idxs: Seq<usize>) -> Seq<A>
    decreases idxs.len(),
{
    if idxs.len() == 0 {
        s
    } else {
        removed_at(s.remove(idxs.last() as int), idxs.drop_last())
    }
}

proof fn lemma_rising_drop(idxs: Seq<usize>, n: nat)
    requires
        sessions_ui::rising(idxs, n),
        idxs.len() > 0,
    ensures
        sessions_ui::rising(idxs.drop_last(), (n - 1) as nat),
        idxs.last() < n,
        forall|a: int| 0 <= a < idxs.len() - 1 ==> (#[trigger] idxs.drop_last()[a]) < idxs.last(),
{
    let t = idxs.drop_last();
    assert(idxs[idxs.len() - 1] < n);
    assert forall|a: int| 0 <= a < t.len() implies (#[trigger] t[a]) < idxs.last() by {
        assert(t[a] == idxs[a]);
        assert(idxs[a] < idxs[idxs.len() - 1]);
    }
    assert forall|a: int, b: int| 0 <= a < b < t.len() implies (#[trigger] t[a]) < (
    #[trigger] t[b]) by {
        assert(t[a] == idxs[a] && t[b] == idxs[b]);
    }
}

/// How many of the positions lie below `i`.
pub open spec fn count_below(idxs: Seq<usize>, i: int) -> nat
    decreases idxs.len(),
{
    if idxs.len() == 0 {
        0
    } else {
        count_below(idxs.drop_last(), i) + (if idxs.last() < i {
            1nat
        } else {
            0
        })
    }
}

proof fn lemma_count_below_all(idxs: Seq<usize>, i: int)
    requires
        forall|a: int| 0 <= a < idxs.len() ==> (#[trigger] idxs[a]) < i,
    ensures
        count_below(idxs, i) == idxs.len(),
    decreases idxs.len(),
{
    if idxs.len() > 0 {
        let t = idxs.drop_last();
        assert forall|a: int| 0 <= a < t.len() implies (#[trigger] t[a]) < i by {
            assert(t[a] == idxs[a]);
        }
        lemma_count_below_all(t, i);
        assert(idxs[idxs.len() - 1] < i);
    }
}

proof fn lemma_count_between(idxs: Seq<usize>, n: nat, i: int, j: int)
    requires
        sessions_ui::rising(idxs, n),
        0 <= i <= j,
    ensures
        count_below(idxs, i) <= count_below(idxs, j) <= count_below(idxs, i) + (j - i),
        count_below(idxs, i) <= i,
    decreases idxs.len(),
{
    if idxs.len() > 0 {
        let t = idxs.drop_last();
        let last = idxs.last() as int;
        lemma_rising_drop(idxs, n);
        lemma_count_between(t, (n - 1) as nat, i, j);
        if last < j {
            lemma_count_below_all(t, last);
            lemma_count_below_all(t, j);
            lemma_count_between(t, (n - 1) as nat, 0, last);
            if last < i {
                lemma_count_below_all(t, i);
            } else {
                lemma_count_between(t, (n - 1) as nat, i, last);
            }
        }
    }
}

/// Whether a place is none of those given.
pub open spec fn spared(idxs: Seq<usize>, i: int) -> bool {
    forall|a: int| 0 <= a < idxs.len() ==> (#[trigger] idxs[a]) != i
}

proof fn lemma_removed_len<A>(s: Seq<A>, idxs: Seq<usize>)
    requires
        sessions_ui::rising(idxs, s.len()),
    ensures
        removed_at(s, idxs).len() == s.len() - idxs.len(),
    decreases idxs.len(),
{
    if idxs.len() > 0 {
        lemma_rising_drop(idxs, s.len());
        lemma_removed_len(s.remove(idxs.last() as int), idxs.drop_last());
    }
}

/// What is not removed is still there, moved up by what stood above it and is gone.
proof fn lemma_removed_keeps<A>(s: Seq<A>, idxs: Seq<usize>, i: int)
    requires
        sessions_ui::rising(idxs, s.len()),
        0 <= i < s.len(),
        spared(idxs, i),
    ensures
        0 <= i - count_below(idxs, i) < removed_at(s, idxs).len(),
        removed_at(s, idxs)[i - count_below(idxs, i)] == s[i],
    decreases idxs.len(),
{
    lemma_count_between(idxs, s.len(), 0, i);
    if idxs.len() > 0 {
        let j = idxs.last() as int;
        let x = s.remove(j);
        let t = idxs.drop_last();
        lemma_rising_drop(idxs, s.len());
        assert(idxs[idxs.len() - 1] != i);
        if i < j {
            assert forall|a: int| 0 <= a < t.len() implies (#[trigger] t[a]) != i by {
                assert(t[a] == idxs[a]);
            }
            assert(x[i] == s[i]);
            lemma_removed_keeps(x, t, i);
        } else {
            assert(x[i - 1] == s[i]);
            lemma_count_below_all(t, i);
            lemma_count_below_all(t, i - 1);
            lemma_removed_keeps(x, t, i - 1);
        }
    }
}

proof fn lemma_without(u: ManagerView, idxs: Seq<usize>)
    ensures
        u.without(idxs) == (match u.tab {
            Tab::Sessions => ManagerView {
                sessions: removed_at(u.sessions, idxs),
                sess_marks: removed_at(u.sess_marks, idxs),
                ..u
            },
            Tab::Memories => ManagerView {
                mems: removed_at(u.mems, idxs),
                mem_marks: removed_at(u.mem_marks, idxs),
                ..u
            },
        }),
    decreases idxs.len(),
{
    if idxs.len() > 0 {
        let i = idxs.last() as int;
        let x = match u.tab {
            Tab::Sessions => ManagerView {
                sessions: u.sessions.remove(i),
                sess_marks: u.sess_marks.remove(i),
                ..u
            },
            Tab::Memories => ManagerView {
                mems: u.mems.remove(i),
                mem_marks: u.mem_marks.remove(i),
                ..u
            },
        };
        lemma_without(x, idxs.drop_last());
    }
}

// -------------------------------------------------------------------- deletion

/// Where a row that is not to be deleted stands afterwards: moved up by the rows above
/// it that are gone.
pub open spec fn new_place(u: ManagerView, i: int) -> int {
    i - count_below(u.candidates(), i)
}

proof fn lemma_deleted(u: ManagerView, removed: Seq<bool>)
    requires
        u.wf(),
        u.sessions.len() <= usize::MAX,
        u.mems.len() <= usize::MAX,
    ensures
        sessions_ui::deleted(u, removed).wf(),
        ({
            let d = sessions_ui::deleted(u, removed);
            let c = u.candidates();
            &&& sessions_ui::rising(c, u.rows())
            &&& d.tab == u.tab
            &&& d.mode == u.mode
            &&& match u.tab {
                Tab::Sessions => {
                    &&& d.sessions == removed_at(u.sessions, c)
                    &&& d.sess_marks == removed_at(u.sess_marks, c)
                    &&& d.sessions.len() == u.sessions.len() - c.len()
                    &&& d.mems == u.mems
                    &&& d.mem_marks == u.mem_marks
                },
                Tab::Memories => {
                    &&& d.mems == removed_at(u.mems, c)
                    &&& d.mem_marks == removed_at(u.mem_marks, c)
                    &&& d.mems.len() == u.mems.len() - c.len()
                    &&& d.sessions == u.sessions
                    &&& d.sess_marks == u.sess_marks
                },
            }
        }),
{
    sessions_ui::law_current_session_is_spared(u);
    let c = u.candidates();
    lemma_without(u, c);
    match u.tab {
        Tab::Sessions => {
            lemma_removed_len(u.sessions, c);
            lemma_removed_len(u.sess_marks, c);
        },
        Tab::Memories => {
            lemma_removed_len(u.mems, c);
            lemma_removed_len(u.mem_marks, c);
        },
    }
    let report = sessions_ui::delete_report(
        sessions_ui::count_true(removed),
        (removed.len() - sessions_ui::count_true(removed)) as nat,
    );
    sessions_ui::lemma_clamped_wf(u.without(c).saying(report.0, report.1));
}

/// A deletion takes the rows that were to be deleted off their page and no other: each
/// other row is still there with its mark, the current session among them, the other
/// page is as it was, and the list stays whole.
pub proof fn law_deletion_takes_only_candidates(u: ManagerView, removed: Seq<bool>, i: int)
    requires
        u.wf(),
        u.sessions.len() <= usize::MAX,
        u.mems.len() <= usize::MAX,
        0 <= i < u.rows(),
        u.is_current(i) || !u.candidates().contains(i as usize),
    ensures
        sessions_ui::deleted(u, removed).wf(),
        ({
            let d = sessions_ui::deleted(u, removed);
            let k = new_place(u, i);
            &&& d.tab == u.tab
            &&& d.rows() == u.rows() - u.candidates().len()
            &&& 0 <= k < d.rows()
            &&& match u.tab {
                Tab::Sessions => {
                    &&& d.sessions[k] == u.sessions[i]
                    &&& d.sess_marks[k] == u.sess_marks[i]
                    &&& d.mems == u.mems
                    &&& d.mem_marks == u.mem_marks
                },
                Tab::Memories => {
                    &&& d.mems[k] == u.mems[i]
                    &&& d.mem_marks[k] == u.mem_marks[i]
                    &&& d.sessions == u.sessions
                    &&& d.sess_marks == u.sess_marks
                },
            }
        }),
{
    sessions_ui::law_current_session_is_spared(u);
    lemma_deleted(u, removed);
    let c = u.candidates();
    assert forall|a: int| 0 <= a < c.len() implies (#[trigger] c[a]) != i by {
        assert(!u.is_current(c[a] as int));
        if c[a] == i {
            assert(c.contains(i as usize));
        }
    }
    match u.tab {
        Tab::Sessions => {
            lemma_removed_keeps(u.sessions, c, i);
            lemma_removed_keeps(u.sess_marks, c, i);
        },
        Tab::Memories => {
            lemma_removed_keeps(u.mems, c, i);
            lemma_removed_keeps(u.mem_marks, c, i);
        },
    }
}

/// A deletion keeps the rows that it leaves in their order.
pub proof fn law_deletion_keeps_the_order(u: ManagerView, i: int, j: int)
    requires
        u.wf(),
        u.sessions.len() <= usize::MAX,
        u.mems.len() <= usize::MAX,
        0 <= i < j < u.rows(),
        !u.candidates().contains(i as usize),
        !u.candidates().contains(j as usize),
    ensures
        new_place(u, i) < new_place(u, j),
{
    sessions_ui::law_current_session_is_spared(u);
    let c = u.candidates();
    assert forall|a: int| 0 <= a < c.len() implies (#[trigger] c[a]) != i by {
        if c[a] == i {
            assert(c.contains(i as usize));
        }
    }
    lemma_count_past(c, i);
    lemma_count_between(c, u.rows(), i + 1, j);
}

proof fn lemma_count_past(idxs: Seq<usize>, i: int)
    requires
        spared(idxs, i),
    ensures
        count_below(idxs, i) == count_below(idxs, i + 1),
    decreases idxs.len(),
{
    if idxs.len() > 0 {
        let t = idxs.drop_last();
        assert forall|a: int| 0 <= a < t.len() implies (#[trigger] t[a]) != i by {
            assert(t[a] == idxs[a]);
        }
        lemma_count_past(t, i);
        assert(idxs[idxs.len() - 1] != i);
    }
}

// ------------------------------------------------------------------ any keys

/// A key, and what the host answers to what it asks for: which files it removed,
/// whether it wrote the note, and what it read.
pub struct Turn {
    pub key: KeyCode,
    pub removed: Seq<bool>,
    pub written: Result<(), Seq<char>>,
    pub read: Seq<char>,
}

/// The manager once a key has been pressed and the host has done what was asked.
pub open spec fn after_turn(u: ManagerView, t: Turn) -> ManagerView {
    let (x, asked) = sessions_ui::on_key_of(u, t.key);
    match asked {
        UiView::DeleteSessions(_) => sessions_ui::deleted(x, t.removed),
        UiView::DeleteMemories(_) => sessions_ui::deleted(x, t.removed),
        UiView::WriteNote { path, text } => sessions_ui::noted(x, text, t.written),
        UiView::ReadMemory(_) => sessions_ui::reading(x, t.read),
        _ => x,
    }
}

/// The manager once keys have been pressed, one after the other.
pub open spec fn after_turns(u: ManagerView, ts: Seq<Turn>) -> ManagerView
    decreases ts.len(),
{
    if ts.len() == 0 {
        u
    } else {
        after_turn(after_turns(u, ts.drop_last()), ts.last())
    }
}

/// A key that answers the question whether to delete with yes.
pub open spec fn confirms(u: ManagerView, k: KeyCode) -> bool {
    u.mode is ConfirmDelete && input::is_letter(k, 'y', 'Y')
}

/// One session, whatever is noted of it.
pub open spec fn same_session(a: SessionRowView, b: SessionRowView) -> bool {
    SessionRowView { note: b.note, ..a } == b
}

/// The current session is not marked.
pub open spec fn current_unmarked(u: ManagerView) -> bool {
    forall|j: int|
        0 <= j < u.sessions.len() && (#[trigger] u.sessions[j]).is_current ==> !u.sess_marks[j]
}

/// The row is still on the list.
pub open spec fn listed(u: ManagerView, row: SessionRowView) -> bool {
    exists|j: int| 0 <= j < u.sessions.len() && same_session(#[trigger] u.sessions[j], row)
}

/// The rows of both pages are the same, but for notes.
pub open spec fn same_rows(a: ManagerView, b: ManagerView) -> bool {
    &&& a.sessions.len() == b.sessions.len()
    &&& forall|i: int|
        0 <= i < a.sessions.len() ==> same_session(#[trigger] a.sessions[i], b.sessions[i])
    &&& a.mems == b.mems
}

proof fn lemma_removed_unmarked(s: Seq<SessionRowView>, m: Seq<bool>, idxs: Seq<usize>)
    requires
        m.len() == s.len(),
        sessions_ui::rising(idxs, s.len()),
        forall|j: int| 0 <= j < s.len() && (#[trigger] s[j]).is_current ==> !m[j],
    ensures
        forall|j: int|
            0 <= j < removed_at(s, idxs).len() && (#[trigger] removed_at(s, idxs)[j]).is_current
                ==> !removed_at(m, idxs)[j],
    decreases idxs.len(),
{
    if idxs.len() > 0 {
        lemma_rising_drop(idxs, s.len());
        let i = idxs.last() as int;
        let x = s.remove(i);
        assert forall|j: int| 0 <= j < x.len() && (#[trigger] x[j]).is_current implies !m.remove(
            i,
        )[j] by {
            if j < i {
                assert(x[j] == s[j]);
            } else {
                assert(x[j] == s[j + 1]);
            }
        }
        lemma_removed_unmarked(x, m.remove(i), idxs.drop_last());
    }
}

/// The rows and marks of two managers are the same.
pub open spec fn same_list(a: ManagerView, b: ManagerView) -> bool {
    a.sessions == b.sessions && a.mems == b.mems && a.sess_marks == b.sess_marks
}

proof fn lemma_moved_list(u: ManagerView, down: bool, steps: nat)
    ensures
        same_list(u.moved(down, steps), u),
{
}

proof fn lemma_browse_list(u: ManagerView, k: KeyCode)
    ensures
        ({
            let x = sessions_ui::browse_key(u, k).0;
            same_list(x, u) || x == sessions_ui::mark_toggled(u)
        }),
{
    lemma_moved_list(u, false, 1);
    lemma_moved_list(u, true, 1);
    lemma_moved_list(u, false, 10);
    lemma_moved_list(u, true, 10);
    lemma_moved_list(u, false, (u.cursor + 1) as nat);
    lemma_moved_list(u, true, u.rows());
}

proof fn lemma_filter_list(u: ManagerView, buf: Seq<char>, k: KeyCode)
    ensures
        same_list(sessions_ui::filter_key(u, buf, k), u),
{
}

proof fn lemma_note_list(u: ManagerView, buf: Seq<char>, k: KeyCode)
    ensures
        same_list(sessions_ui::note_key(u, buf, k).0, u),
{
}

proof fn lemma_toggled_unmarked(u: ManagerView)
    requires
        u.wf(),
        current_unmarked(u),
    ensures
        sessions_ui::mark_toggled(u).sessions == u.sessions,
        sessions_ui::mark_toggled(u).mems == u.mems,
        current_unmarked(sessions_ui::mark_toggled(u)),
{
    let x = sessions_ui::mark_toggled(u);
    assert forall|j: int| 0 <= j < x.sessions.len() && (
    #[trigger] x.sessions[j]).is_current implies !x.sess_marks[j] by {
        assert(u.sessions[j].is_current);
    }
}

proof fn lemma_key_rows(u: ManagerView, k: KeyCode)
    requires
        u.wf(),
        current_unmarked(u),
    ensures
        sessions_ui::on_key_of(u, k).0.sessions == u.sessions,
        sessions_ui::on_key_of(u, k).0.mems == u.mems,
        current_unmarked(sessions_ui::on_key_of(u, k).0),
{
    match u.mode {
        ModeView::Detail { title, body, offset } => {},
        ModeView::ConfirmDelete => {
            assert(same_list(sessions_ui::confirm_key(u, k).0, u));
        },
        ModeView::EditNote(buf) => lemma_note_list(u, buf, k),
        ModeView::Filter(buf) => lemma_filter_list(u, buf, k),
        ModeView::Browse => {
            lemma_browse_list(u, k);
            lemma_toggled_unmarked(u);
        },
    }
}

proof fn lemma_noted_rows(u: ManagerView, s: Seq<char>, r: Result<(), Seq<char>>)
    requires
        u.wf(),
        current_unmarked(u),
    ensures
        sessions_ui::noted(u, s, r).wf(),
        same_rows(sessions_ui::noted(u, s, r), u),
        current_unmarked(sessions_ui::noted(u, s, r)),
{
    let y = sessions_ui::noted(u, s, r);
    assert forall|j: int| 0 <= j < y.sessions.len() implies same_session(
        #[trigger] y.sessions[j],
        u.sessions[j],
    ) by {}
    assert forall|j: int| 0 <= j < y.sessions.len() && (
    #[trigger] y.sessions[j]).is_current implies !y.sess_marks[j] by {
        assert(same_session(y.sessions[j], u.sessions[j]));
        assert(u.sessions[j].is_current);
    }
}

proof fn lemma_deleted_rows(u: ManagerView, removed: Seq<bool>)
    requires
        u.wf(),
        u.sessions.len() <= usize::MAX,
        u.mems.len() <= usize::MAX,
        current_unmarked(u),
    ensures
        sessions_ui::deleted(u, removed).wf(),
        sessions_ui::deleted(u, removed).sessions.len() <= u.sessions.len(),
        sessions_ui::deleted(u, removed).mems.len() <= u.mems.len(),
        current_unmarked(sessions_ui::deleted(u, removed)),
        forall|i: int|
            0 <= i < u.sessions.len() && (#[trigger] u.sessions[i]).is_current ==> listed(
                sessions_ui::deleted(u, removed),
                u.sessions[i],
            ),
{
    let y = sessions_ui::deleted(u, removed);
    lemma_deleted(u, removed);
    if u.tab == Tab::Sessions {
        lemma_removed_unmarked(u.sessions, u.sess_marks, u.candidates());
    }
    assert forall|i: int| 0 <= i < u.sessions.len() && (
    #[trigger] u.sessions[i]).is_current implies listed(y, u.sessions[i]) by {
        if u.tab == Tab::Sessions {
            law_deletion_takes_only_candidates(u, removed, i);
            assert(same_session(y.sessions[new_place(u, i)], u.sessions[i]));
        } else {
            assert(same_session(y.sessions[i], u.sessions[i]));
        }
    }
}

proof fn lemma_turn(u: ManagerView, t: Turn)
    requires
        u.wf(),
        u.sessions.len() <= usize::MAX,
        u.mems.len() <= usize::MAX,
        current_unmarked(u),
    ensures
        after_turn(u, t).wf(),
        after_turn(u, t).sessions.len() <= u.sessions.len(),
        after_turn(u, t).mems.len() <= u.mems.len(),
        current_unmarked(after_turn(u, t)),
        !confirms(u, t.key) ==> same_rows(after_turn(u, t), u),
        forall|i: int|
            0 <= i < u.sessions.len() && (#[trigger] u.sessions[i]).is_current ==> listed(
                after_turn(u, t),
                u.sessions[i],
            ),
{
    let (x, asked) = sessions_ui::on_key_of(u, t.key);
    let y = after_turn(u, t);
    sessions_ui::law_keys_keep_the_list_whole(u, t.key);
    sessions_ui::law_deletion_is_confirmed(u, t.key);
    lemma_key_rows(u, t.key);
    match asked {
        UiView::DeleteSessions(_) => lemma_deleted_rows(x, t.removed),
        UiView::DeleteMemories(_) => lemma_deleted_rows(x, t.removed),
        UiView::WriteNote { path, text } => lemma_noted_rows(x, text, t.written),
        _ => {},
    }
    if !(asked is DeleteSessions || asked is DeleteMemories) {
        assert(same_rows(y, u));
        assert forall|i: int| 0 <= i < u.sessions.len() && (
        #[trigger] u.sessions[i]).is_current implies listed(y, u.sessions[i]) by {
            assert(same_session(y.sessions[i], u.sessions[i]));
        }
    }
}

/// Whatever keys are pressed, one after the other, and whatever the host answers: there
/// is a mark for each row and the cursor is on the list, and the current session is
/// still listed and is not marked.
pub proof fn law_keys_spare_the_current_session(u: ManagerView, ts: Seq<Turn>)
    requires
        u.wf(),
        u.sessions.len() <= usize::MAX,
        u.mems.len() <= usize::MAX,
        current_unmarked(u),
    ensures
        after_turns(u, ts).wf(),
        after_turns(u, ts).sessions.len() <= u.sessions.len(),
        after_turns(u, ts).mems.len() <= u.mems.len(),
        current_unmarked(after_turns(u, ts)),
        forall|i: int|
            0 <= i < u.sessions.len() && (#[trigger] u.sessions[i]).is_current ==> listed(
                after_turns(u, ts),
                u.sessions[i],
            ),
    decreases ts.len(),
{
    if ts.len() == 0 {
        assert forall|i: int| 0 <= i < u.sessions.len() && (
        #[trigger] u.sessions[i]).is_current implies listed(u, u.sessions[i]) by {
            assert(same_session(u.sessions[i], u.sessions[i]));
        }
    } else {
        law_keys_spare_the_current_session(u, ts.drop_last());
        let x = after_turns(u, ts.drop_last());
        let y = after_turns(u, ts);
        lemma_turn(x, ts.last());
        assert forall|i: int| 0 <= i < u.sessions.len() && (
        #[trigger] u.sessions[i]).is_current implies listed(y, u.sessions[i]) by {
            let j = choose|j: int|
                0 <= j < x.sessions.len() && same_session(#[trigger] x.sessions[j], u.sessions[i]);
            assert(x.sessions[j].is_current);
            assert(listed(y, x.sessions[j]));
            let k = choose|k: int|
                0 <= k < y.sessions.len() && same_session(#[trigger] y.sessions[k], x.sessions[j]);
            assert(same_session(y.sessions[k], u.sessions[i]));
        }
    }
}

/// Whatever keys are pressed, one after the other, and whatever the host answers: as
/// long as the question whether to delete is never answered with yes, both pages hold
/// the rows that they held, but for notes.
pub proof fn law_rows_go_only_when_confirmed(u: ManagerView, ts: Seq<Turn>)
    requires
        u.wf(),
        u.sessions.len() <= usize::MAX,
        u.mems.len() <= usize::MAX,
        current_unmarked(u),
        forall|i: int|
            0 <= i < ts.len() ==> !confirms(after_turns(u, #[trigger] ts.take(i)), ts[i].key),
    ensures
        same_rows(after_turns(u, ts), u),
    decreases ts.len(),
{
    if ts.len() > 0 {
        let t = ts.drop_last();
        assert forall|i: int| 0 <= i < t.len() implies !confirms(
            after_turns(u, #[trigger] t.take(i)),
            t[i].key,
        ) by {
            assert(t.take(i) =~= ts.take(i));
        }
        law_rows_go_only_when_confirmed(u, t);
        law_keys_spare_the_current_session(u, t);
        let x = after_turns(u, t);
        let y = after_turns(u, ts);
        assert(ts.take(ts.len() - 1) =~= t);
        lemma_turn(x, ts.last());
        assert forall|i: int| 0 <= i < y.sessions.len() implies same_session(
            #[trigger] y.sessions[i],
            u.sessions[i],
        ) by {
            assert(same_session(x.sessions[i], u.sessions[i]));
        }
    }
}

/// A manager that has just been opened marks nothing, so that what is said of keys
/// holds from there on.
pub proof fn law_opened_manager_marks_nothing(
    sessions: Seq<SessionRowView>,
    mems: Seq<crate::session_rows::MemoryRowView>,
)
    ensures
        sessions_ui::opened(sessions, mems).wf(),
        current_unmarked(sessions_ui::opened(sessions, mems)),
{
}

} // verus!
