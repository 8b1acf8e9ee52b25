//! The session manager: a full-screen list of past sessions and of memories, to be
//! resumed, read, annotated, filtered and deleted.
//!
//! A key press changes the list and says what its host has to do; the host brings
//! the outcome back through [`SessionsUi::finish_delete`],
//! [`SessionsUi::finish_note`] and [`SessionsUi::show_memory`].
use crate::input;
use crate::input::{KeyCode, KeyEvent};
use crate::scan;
use crate::session_rows;
use crate::session_rows::{
    MemoryFile, MemoryRow, MemoryRowView, SessionFile, SessionRow, SessionRowView,
};
use crate::settings;
use crate::text;
use vstd::prelude::*;

verus! {

/// How long a note may be.
pub const NOTE_MAX_LEN: usize = 200;

/// A page of the manager.
#[derive(Clone, Copy, Debug, PartialEq, Eq, Structural)]
pub enum Tab {
    Sessions,
    Memories,
}

/// The name of a page.
pub open spec fn tab_name(t: Tab) -> Seq<char> {
    match t {
        Tab::Sessions => "历史会话"@,
        Tab::Memories => "长期记忆"@,
    }
}

impl Tab {
    /// The name of the page.
    pub fn label(self) -> (r: &'static str)
        ensures
            r@ == tab_name(self),
    {
        match self {
            Tab::Sessions => "历史会话",
            Tab::Memories => "长期记忆",
        }
    }
}

/// What the manager is doing.
#[derive(Debug)]
pub enum Mode {
    Browse,
    /// Asking whether to delete.
    ConfirmDelete,
    /// A note is being typed.
    EditNote(String),
    /// A filter is being typed.
    Filter(String),
    /// A memory is being read.
    Detail { title: String, body: Vec<String>, offset: usize },
}

/// What the host has to do.
#[derive(Debug)]
pub enum UiAction {
    /// Nothing.
    Idle,
    /// Leave the manager.
    Exit,
    /// Resume the session at the path.
    Resume(String),
    /// Delete the sessions at the paths, and say how it went.
    DeleteSessions(Vec<String>),
    /// Delete the memories of the names, and say how it went.
    DeleteMemories(Vec<String>),
    /// Write a note for the session at the path, and say how it went.
    WriteNote { path: String, text: String },
    /// Read the memory of the name, and hand over its text.
    ReadMemory(String),
}

/// The manager.
#[derive(Debug)]
pub struct SessionsUi {
    pub tab: Tab,
    pub sessions: Vec<SessionRow>,
    pub mems: Vec<MemoryRow>,
    pub sess_marks: Vec<bool>,
    pub mem_marks: Vec<bool>,
    pub cursor: usize,
    pub scroll: usize,
    pub mode: Mode,
    /// The filter that holds, in lower case.
    pub filter: String,
    /// How the last thing went, and what is said of it.
    pub status: Option<(bool, String)>,
}

// ----------------------------------------------------------------------- views

/// What the manager is doing.
pub enum ModeView {
    Browse,
    ConfirmDelete,
    EditNote(Seq<char>),
    Filter(Seq<char>),
    Detail { title: Seq<char>, body: Seq<Seq<char>>, offset: usize },
}

impl View for Mode {
    type V = ModeView;

    open spec fn view(&self) -> ModeView {
        match self {
            Mode::Browse => ModeView::Browse,
            Mode::ConfirmDelete => ModeView::ConfirmDelete,
            Mode::EditNote(s) => ModeView::EditNote(s@),
            Mode::Filter(s) => ModeView::Filter(s@),
            Mode::Detail { title, body, offset } => ModeView::Detail {
                title: title@,
                body: scan::texts(body@),
                offset: *offset,
            },
        }
    }
}

/// What the host has to do.
pub enum UiView {
    Idle,
    Exit,
    Resume(Seq<char>),
    DeleteSessions(Seq<Seq<char>>),
    DeleteMemories(Seq<Seq<char>>),
    WriteNote { path: Seq<char>, text: Seq<char> },
    ReadMemory(Seq<char>),
}

impl View for UiAction {
    type V = UiView;

    open spec fn view(&self) -> UiView {
        match self {
            UiAction::Idle => UiView::Idle,
            UiAction::Exit => UiView::Exit,
            UiAction::Resume(p) => UiView::Resume(p@),
            UiAction::DeleteSessions(v) => UiView::DeleteSessions(scan::texts(v@)),
            UiAction::DeleteMemories(v) => UiView::DeleteMemories(scan::texts(v@)),
            UiAction::WriteNote { path, text } => UiView::WriteNote { path: path@, text: text@ },
            UiAction::ReadMemory(n) => UiView::ReadMemory(n@),
        }
    }
}

/// What the manager holds.
pub struct ManagerView {
    pub tab: Tab,
    pub sessions: Seq<SessionRowView>,
    pub mems: Seq<MemoryRowView>,
    pub sess_marks: Seq<bool>,
    pub mem_marks: Seq<bool>,
    pub cursor: usize,
    pub scroll: usize,
    pub mode: ModeView,
    pub filter: Seq<char>,
    pub status: Option<(bool, Seq<char>)>,
}

impl View for SessionsUi {
    type V = ManagerView;

    open spec fn view(&self) -> ManagerView {
        ManagerView {
            tab: self.tab,
            sessions: session_rows::session_views(self.sessions@),
            mems: session_rows::memory_views(self.mems@),
            sess_marks: self.sess_marks@,
            mem_marks: self.mem_marks@,
            cursor: self.cursor,
            scroll: self.scroll,
            mode: self.mode@,
            filter: self.filter@,
            status: match self.status {
                Some((ok, s)) => Some((ok, s@)),
                None => None,
            },
        }
    }
}

broadcast use crate::session_rows::group_row_views;

// ----------------------------------------------------------------------- rows

impl ManagerView {
    /// How many rows the page has.
    pub open spec fn rows(self) -> nat {
        match self.tab {
            Tab::Sessions => self.sessions.len(),
            Tab::Memories => self.mems.len(),
        }
    }

    /// The marks of the page.
    pub open spec fn marks(self) -> Seq<bool> {
        match self.tab {
            Tab::Sessions => self.sess_marks,
            Tab::Memories => self.mem_marks,
        }
    }

    /// A mark for each row, and a cursor that stands on one, where there is one.
    pub open spec fn wf(self) -> bool {
        &&& self.sess_marks.len() == self.sessions.len()
        &&& self.mem_marks.len() == self.mems.len()
        &&& self.rows() > 0 ==> self.cursor < self.rows()
    }

    /// The filter that holds: the one that is being typed, or else the one that was
    /// confirmed.
    pub open spec fn active_filter(self) -> Seq<char> {
        match self.mode {
            ModeView::Filter(s) => text::low(s),
            _ => self.filter,
        }
    }

    /// The text of a row that is searched.
    pub open spec fn hay(self, i: int) -> Seq<char> {
        match self.tab {
            Tab::Sessions => {
                let s = self.sessions[i];
                settings::text_or_empty(s.note) + " "@ + s.id + " "@ + text::bool_name(s.headless)
            },
            Tab::Memories => {
                let m = self.mems[i];
                m.name + " "@ + m.desc + " "@ + m.filename + " "@ + m.mtype
            },
        }
    }

    /// Whether a row passes a filter.
    pub open spec fn passes(self, i: int, f: Seq<char>) -> bool {
        f.len() == 0 || scan::occurs(text::low(self.hay(i)), f)
    }

    /// Whether a row is shown.
    pub open spec fn visible(self, i: int) -> bool {
        self.passes(i, self.active_filter())
    }

    /// How many of the first `n` rows are shown.
    pub open spec fn visible_before(self, n: nat) -> nat
        decreases n,
    {
        if n == 0 {
            0
        } else {
            self.visible_before((n - 1) as nat) + (if self.visible(n - 1) {
                1nat
            } else {
                0
            })
        }
    }

    /// Whether a row is the current session.
    pub open spec fn is_current(self, i: int) -> bool {
        self.tab == Tab::Sessions && 0 <= i < self.sessions.len() && self.sessions[i].is_current
    }

    /// The first row at or behind `i` that is shown, or the end.
    pub open spec fn next_visible(self, i: int) -> int
        decreases self.rows() - i,
    {
        if 0 <= i < self.rows() && !self.visible(i) {
            self.next_visible(i + 1)
        } else {
            i
        }
    }

    /// The last row at or before `i` that is shown, or -1.
    pub open spec fn prev_visible(self, i: int) -> int
        decreases i + 1,
    {
        if 0 <= i && !self.visible(i) {
            self.prev_visible(i - 1)
        } else {
            i
        }
    }

    /// The manager with the cursor on a row that is shown: the one it stands on, or
    /// else the next one below, or else the next one above.
    pub open spec fn clamped(self) -> ManagerView {
        if self.rows() == 0 {
            ManagerView { cursor: 0, scroll: 0, ..self }
        } else {
            let c = if self.cursor < self.rows() {
                self.cursor as int
            } else {
                self.rows() - 1
            };
            let at = if self.visible(c) {
                c
            } else if self.next_visible(c) < self.rows() {
                self.next_visible(c)
            } else if self.prev_visible(c) >= 0 {
                self.prev_visible(c)
            } else {
                c
            };
            ManagerView {
                cursor: at as usize,
                scroll: if at < self.scroll {
                    at as usize
                } else {
                    self.scroll
                },
                ..self
            }
        }
    }

    /// The row that lies one further, where there is one.
    pub open spec fn one_on(self, i: int, down: bool) -> Option<int> {
        if down {
            if i + 1 < self.rows() {
                Some(i + 1)
            } else {
                None
            }
        } else if i > 0 {
            Some(i - 1)
        } else {
            None
        }
    }

    /// How many rows lie ahead.
    pub open spec fn ahead(self, i: int, down: bool) -> int {
        if down {
            self.rows() - i
        } else {
            i + 1
        }
    }

    /// The first row from `i` on that is shown, or the last one there is.
    pub open spec fn seek(self, i: int, down: bool) -> int
        decreases self.ahead(i, down),
    {
        if 0 <= i < self.rows() && !self.visible(i) {
            match self.one_on(i, down) {
                Some(j) => self.seek(j, down),
                None => i,
            }
        } else {
            i
        }
    }

    /// The row that lies `steps` shown rows further, or the last one there is.
    pub open spec fn walk(self, i: int, down: bool, steps: nat) -> int
        decreases self.ahead(i, down),
    {
        if 0 <= i < self.rows() && steps > 0 {
            match self.one_on(i, down) {
                Some(j) => self.walk(
                    j,
                    down,
                    if self.visible(j) {
                        (steps - 1) as nat
                    } else {
                        steps
                    },
                ),
                None => i,
            }
        } else {
            i
        }
    }

    /// The manager with the cursor moved by `steps` shown rows.
    pub open spec fn moved(self, down: bool, steps: nat) -> ManagerView {
        if self.rows() == 0 {
            self
        } else {
            let c = if self.cursor < self.rows() {
                self.cursor as int
            } else {
                self.rows() - 1
            };
            let at = self.walk(self.seek(c, down), down, steps);
            ManagerView { cursor: at as usize, ..self }.clamped()
        }
    }

    /// The manager with something said of the last thing done.
    pub open spec fn saying(self, ok: bool, s: Seq<char>) -> ManagerView {
        ManagerView { status: Some((ok, s)), ..self }
    }

    /// The manager with nothing said.
    pub open spec fn quiet(self) -> ManagerView {
        ManagerView { status: None, ..self }
    }

    /// The first `n` rows that are marked and are not the current session.
    pub open spec fn marked_before(self, n: nat) -> Seq<usize>
        decreases n,
    {
        if n == 0 {
            Seq::empty()
        } else {
            let r = self.marked_before((n - 1) as nat);
            if self.marks()[n - 1] && !self.is_current(n - 1) {
                r.push((n - 1) as usize)
            } else {
                r
            }
        }
    }

    /// The rows to be deleted: those that are marked, or else the one under the
    /// cursor; the current session is never among them.
    pub open spec fn candidates(self) -> Seq<usize> {
        let m = self.marked_before(self.marks().len());
        if m.len() > 0 {
            m
        } else if self.rows() != 0 && !self.is_current(self.cursor as int) {
            seq![self.cursor]
        } else {
            Seq::empty()
        }
    }

    /// The manager without the given rows.
    pub open spec fn without(self, idxs: Seq<usize>) -> ManagerView
        decreases idxs.len(),
    {
        if idxs.len() == 0 {
            self
        } else {
            let i = idxs.last() as int;
            let x = match self.tab {
                Tab::Sessions => ManagerView {
                    sessions: self.sessions.remove(i),
                    sess_marks: self.sess_marks.remove(i),
                    ..self
                },
                Tab::Memories => ManagerView {
                    mems: self.mems.remove(i),
                    mem_marks: self.mem_marks.remove(i),
                    ..self
                },
            };
            x.without(idxs.drop_last())
        }
    }

    /// The paths or names of the given rows.
    pub open spec fn targets(self, idxs: Seq<usize>) -> Seq<Seq<char>> {
        idxs.map_values(
            |i: usize|
                match self.tab {
                    Tab::Sessions => self.sessions[i as int].path,
                    Tab::Memories => self.mems[i as int].filename,
                },
        )
    }
}

/// How many of the outcomes are good.
pub open spec fn count_true(v: Seq<bool>) -> nat
    decreases v.len(),
{
    if v.len() == 0 {
        0
    } else {
        count_true(v.drop_last()) + (if v.last() {
            1nat
        } else {
            0
        })
    }
}

// ----------------------------------------------------------------- transitions

pub const MARK_CURRENT: &'static str = "当前会话不能删除,不用标记。";

pub const NOTHING_TO_DELETE: &'static str = "没有可删除的行(当前会话除外)。";

pub const CANNOT_DELETE: &'static str = "当前会话不能删除(想重新开始用 /clear)。";

pub const IS_CURRENT: &'static str = "这是当前会话,直接回车即可继续对话。";

/// The mark of the row under the cursor is set or taken off.
pub open spec fn mark_toggled(u: ManagerView) -> ManagerView {
    if u.is_current(u.cursor as int) {
        u.saying(false, MARK_CURRENT@)
    } else if u.cursor < u.marks().len() {
        let m = u.marks().update(u.cursor as int, !u.marks()[u.cursor as int]);
        match u.tab {
            Tab::Sessions => ManagerView { sess_marks: m, ..u }.quiet(),
            Tab::Memories => ManagerView { mem_marks: m, ..u }.quiet(),
        }
    } else {
        u.quiet()
    }
}

/// The deletion has been confirmed.
pub open spec fn delete_confirmed(u: ManagerView) -> (ManagerView, UiView) {
    let x = ManagerView { mode: ModeView::Browse, ..u };
    if x.candidates().len() == 0 {
        (x.saying(false, NOTHING_TO_DELETE@), UiView::Idle)
    } else {
        (
            x,
            match u.tab {
                Tab::Sessions => UiView::DeleteSessions(x.targets(x.candidates())),
                Tab::Memories => UiView::DeleteMemories(x.targets(x.candidates())),
            },
        )
    }
}

/// What is said of a deletion.
pub open spec fn delete_report(done: nat, failed: nat) -> (bool, Seq<char>) {
    if failed == 0 {
        (true, "✔ 已删除 "@ + text::decimal(done) + " 条。"@)
    } else {
        (
            false,
            "已删除 "@ + text::decimal(done) + " 条,"@ + text::decimal(failed) + " 条失败。"@,
        )
    }
}

/// The manager once the rows have been deleted. Rows that could not be deleted leave
/// the list too.
pub open spec fn deleted(u: ManagerView, removed: Seq<bool>) -> ManagerView {
    let report = delete_report(count_true(removed), (removed.len() - count_true(removed)) as nat);
    u.without(u.candidates()).saying(report.0, report.1).clamped()
}

/// The note that a text makes: none where there is nothing but white space.
pub open spec fn note_of(s: Seq<char>) -> Option<Seq<char>> {
    settings::some_filled(scan::trimmed(s))
}

/// The manager once a note has been written, or could not be.
pub open spec fn noted(u: ManagerView, s: Seq<char>, r: Result<(), Seq<char>>) -> ManagerView {
    if u.cursor >= u.sessions.len() {
        u
    } else {
        match r {
            Ok(_) => {
                let row = u.sessions[u.cursor as int];
                let x = ManagerView {
                    sessions: u.sessions.update(
                        u.cursor as int,
                        SessionRowView { note: note_of(s), ..row },
                    ),
                    ..u
                };
                x.saying(
                    true,
                    "✔ 备注已更新:"@ + (match note_of(s) {
                        Some(n) => "「"@ + settings::shortened(n, 40) + "」"@,
                        None => "已清除"@,
                    }),
                )
            },
            Err(e) => u.saying(false, "写备注失败: "@ + e),
        }
    }
}

/// The text without the block of metadata in front: from `---` to the next line
/// that starts so; line feeds in front of what is left go too.
pub open spec fn without_frontmatter(s: Seq<char>) -> Seq<char> {
    let body = if "---"@.is_prefix_of(s) {
        let rest = s.skip(3);
        let at = scan::first_at(rest, "\n---"@, 0);
        if at >= 0 {
            rest.skip(at + 4)
        } else {
            s
        }
    } else {
        s
    };
    body.skip(past_feeds(body, 0))
}

/// The first position at or behind `i` that holds no line feed.
pub open spec fn past_feeds(s: Seq<char>, i: int) -> int
    decreases s.len() - i,
{
    if 0 <= i < s.len() && s[i] == '\n' {
        past_feeds(s, i + 1)
    } else {
        i
    }
}

/// The manager with the text of the memory under the cursor open.
pub open spec fn reading(u: ManagerView, raw: Seq<char>) -> ManagerView {
    if u.cursor >= u.mems.len() {
        u
    } else {
        let m = u.mems[u.cursor as int];
        ManagerView {
            mode: ModeView::Detail {
                title: m.name + " — "@ + m.desc,
                body: scan::line_list(without_frontmatter(raw)),
                offset: 0,
            },
            ..u
        }
    }
}

/// How far a memory is scrolled once a key has been pressed.
pub open spec fn detail_offset(o: usize, k: KeyCode) -> usize {
    match k {
        KeyCode::Up => input::back_by(o, 1),
        KeyCode::Down => input::on_by(o, 1),
        KeyCode::PageUp => input::back_by(o, 15),
        KeyCode::PageDown => input::on_by(o, 15),
        KeyCode::Home => 0,
        KeyCode::End => usize::MAX,
        _ => o,
    }
}

/// What a key does while a memory is shown.
pub open spec fn detail_key(u: ManagerView, k: KeyCode) -> ManagerView {
    if k == KeyCode::Esc {
        ManagerView { mode: ModeView::Browse, ..u }
    } else {
        ManagerView {
            mode: ModeView::Detail {
                title: u.mode->Detail_title,
                body: u.mode->Detail_body,
                offset: detail_offset(u.mode->Detail_offset, k),
            },
            ..u
        }
    }
}

/// What a key does to the question whether to delete.
pub open spec fn confirm_key(u: ManagerView, k: KeyCode) -> (ManagerView, UiView) {
    if input::is_letter(k, 'y', 'Y') {
        delete_confirmed(u)
    } else if input::is_letter(k, 'n', 'N') || k == KeyCode::Esc {
        (ManagerView { mode: ModeView::Browse, ..u }.quiet(), UiView::Idle)
    } else {
        (u, UiView::Idle)
    }
}

/// What a key does while a note is being typed.
pub open spec fn note_key(u: ManagerView, buf: Seq<char>, k: KeyCode) -> (ManagerView, UiView) {
    match k {
        KeyCode::Enter => {
            let x = ManagerView { mode: ModeView::Browse, ..u };
            if u.cursor < u.sessions.len() {
                (x, UiView::WriteNote { path: u.sessions[u.cursor as int].path, text: buf })
            } else {
                (x, UiView::Idle)
            }
        },
        KeyCode::Esc => (ManagerView { mode: ModeView::Browse, ..u }.quiet(), UiView::Idle),
        KeyCode::Backspace => (
            ManagerView { mode: ModeView::EditNote(text::without_last(buf)), ..u },
            UiView::Idle,
        ),
        KeyCode::Char(c) => if text::is_control(c) {
            (u, UiView::Idle)
        } else if buf.len() < NOTE_MAX_LEN {
            (ManagerView { mode: ModeView::EditNote(buf.push(c)), ..u }, UiView::Idle)
        } else {
            (
                u.saying(false, "备注最长 "@ + text::decimal(NOTE_MAX_LEN as nat) + " 字。"@),
                UiView::Idle,
            )
        },
        _ => (u, UiView::Idle),
    }
}

/// What a key does while a filter is being typed.
pub open spec fn filter_key(u: ManagerView, buf: Seq<char>, k: KeyCode) -> ManagerView {
    let browse = ManagerView { mode: ModeView::Browse, ..u };
    match k {
        KeyCode::Enter => ManagerView { filter: text::low(buf), ..browse }.quiet().clamped(),
        KeyCode::Esc => ManagerView { filter: Seq::empty(), ..browse }.quiet().clamped(),
        KeyCode::Backspace => ManagerView {
            mode: ModeView::Filter(text::without_last(buf)),
            ..u
        },
        KeyCode::Char(c) => if text::is_control(c) {
            u
        } else {
            ManagerView { mode: ModeView::Filter(buf.push(c)), ..u }
        },
        _ => u,
    }
}

/// The other page.
pub open spec fn other_tab(t: Tab) -> Tab {
    match t {
        Tab::Sessions => Tab::Memories,
        Tab::Memories => Tab::Sessions,
    }
}

/// `Enter` on the list: resume the session, or read the memory. Where nothing is
/// shown it does nothing.
pub open spec fn entered(u: ManagerView) -> (ManagerView, UiView) {
    if u.visible_before(u.rows()) == 0 {
        (u, UiView::Idle)
    } else {
        match u.tab {
            Tab::Sessions => if u.is_current(u.cursor as int) {
                (u.saying(false, IS_CURRENT@), UiView::Idle)
            } else {
                (u, UiView::Resume(u.sessions[u.cursor as int].path))
            },
            Tab::Memories => (u, UiView::ReadMemory(u.mems[u.cursor as int].filename)),
        }
    }
}

/// What a key does in the list.
pub open spec fn browse_key(u: ManagerView, k: KeyCode) -> (ManagerView, UiView) {
    match k {
        KeyCode::Esc => (u, UiView::Exit),
        KeyCode::Tab => (
            ManagerView { tab: other_tab(u.tab), cursor: 0, scroll: 0, ..u }.clamped().quiet(),
            UiView::Idle,
        ),
        KeyCode::Up => (u.moved(false, 1), UiView::Idle),
        KeyCode::Down => (u.moved(true, 1), UiView::Idle),
        KeyCode::PageUp => (u.moved(false, 10), UiView::Idle),
        KeyCode::PageDown => (u.moved(true, 10), UiView::Idle),
        KeyCode::Home => (u.moved(false, (u.cursor + 1) as nat), UiView::Idle),
        KeyCode::End => (u.moved(true, u.rows()), UiView::Idle),
        KeyCode::Enter => entered(u),
        KeyCode::Delete => (delete_asked(u), UiView::Idle),
        KeyCode::Char(c) => if c == ' ' || c == 'x' || c == 'X' {
            (mark_toggled(u), UiView::Idle)
        } else if c == 'd' || c == 'D' {
            (delete_asked(u), UiView::Idle)
        } else if (c == 'n' || c == 'N') && u.tab == Tab::Sessions && u.sessions.len() > 0 {
            (
                ManagerView {
                    mode: ModeView::EditNote(
                        settings::text_or_empty(u.sessions[u.cursor as int].note),
                    ),
                    ..u
                },
                UiView::Idle,
            )
        } else if c == '/' {
            (ManagerView { mode: ModeView::Filter(u.filter), ..u }, UiView::Idle)
        } else {
            (u, UiView::Idle)
        },
        _ => (u, UiView::Idle),
    }
}

/// A deletion has been asked for.
pub open spec fn delete_asked(u: ManagerView) -> ManagerView {
    if u.candidates().len() == 0 {
        u.saying(false, CANNOT_DELETE@)
    } else {
        ManagerView { mode: ModeView::ConfirmDelete, ..u }
    }
}

/// What a key does.
pub open spec fn on_key_of(u: ManagerView, k: KeyCode) -> (ManagerView, UiView) {
    match u.mode {
        ModeView::Detail { title, body, offset } => (detail_key(u, k), UiView::Idle),
        ModeView::ConfirmDelete => confirm_key(u, k),
        ModeView::EditNote(buf) => note_key(u, buf, k),
        ModeView::Filter(buf) => (filter_key(u, buf, k), UiView::Idle),
        ModeView::Browse => browse_key(u, k),
    }
}

// ------------------------------------------------------------------- execution

/// The manager as it is opened.
pub open spec fn opened(
    sessions: Seq<SessionRowView>,
    mems: Seq<MemoryRowView>,
) -> ManagerView {
    ManagerView {
        tab: Tab::Sessions,
        sessions,
        mems,
        sess_marks: Seq::new(sessions.len(), |i: int| false),
        mem_marks: Seq::new(mems.len(), |i: int| false),
        cursor: 0,
        scroll: 0,
        mode: ModeView::Browse,
        filter: Seq::empty(),
        status: None,
    }
}

fn no_marks(n: usize) -> (r: Vec<bool>)
    ensures
        r@ == Seq::new(n as nat, |i: int| false),
{
    let mut r: Vec<bool> = Vec::new();
    let mut i: usize = 0;
    while i < n
        invariant
            i <= n,
            r@ == Seq::new(i as nat, |k: int| false),
        decreases n - i,
    {
        r.push(false);
        proof {
            assert(r@ =~= Seq::new((i + 1) as nat, |k: int| false));
        }
        i += 1;
    }
    r
}

impl SessionsUi {
    /// Opens the manager on the files that were found.
    pub fn open(
        sessions: &Vec<SessionFile>,
        memories: &Vec<MemoryFile>,
        current_session_id: &str,
    ) -> (r: SessionsUi)
        ensures
            r@ == opened(
                sessions@.map_values(
                    |f: SessionFile| session_rows::row_of_session(f, current_session_id@),
                ),
                memories@.map_values(|f: MemoryFile| session_rows::row_of_memory(f)),
            ),
            r@.wf(),
    {
        let sessions = session_rows::session_rows(sessions, current_session_id);
        let mems = session_rows::memory_rows(memories);
        let sess_marks = no_marks(sessions.len());
        let mem_marks = no_marks(mems.len());
        SessionsUi {
            tab: Tab::Sessions,
            sessions,
            mems,
            sess_marks,
            mem_marks,
            cursor: 0,
            scroll: 0,
            mode: Mode::Browse,
            filter: String::new(),
            status: None,
        }
    }

    /// How many rows the page has.
    pub fn rows_len(&self) -> (r: usize)
        ensures
            r == self@.rows(),
    {
        match self.tab {
            Tab::Sessions => self.sessions.len(),
            Tab::Memories => self.mems.len(),
        }
    }

    /// The text of a row that is searched, in lower case.
    pub fn row_hay(&self, i: usize) -> (r: String)
        requires
            i < self@.rows(),
        ensures
            r@ == text::lowered(self@.hay(i as int)),
            r@ == text::low(self@.hay(i as int)),
    {
        match self.tab {
            Tab::Sessions => {
                let s = &self.sessions[i];
                let note = settings::or_empty(&s.note);
                let hay = text::cat5(
                    note.as_str(),
                    " ",
                    s.id.as_str(),
                    " ",
                    text::bool_text(s.headless),
                );
                text::lowercase(hay.as_str())
            },
            Tab::Memories => {
                let m = &self.mems[i];
                let mut hay = text::cat5(
                    m.name.as_str(),
                    " ",
                    m.desc.as_str(),
                    " ",
                    m.filename.as_str(),
                );
                hay.append(" ");
                hay.append(m.mtype.as_str());
                text::lowercase(hay.as_str())
            },
        }
    }

    /// The filter that holds.
    pub fn active_filter(&self) -> (r: String)
        ensures
            r@ == self@.active_filter(),
    {
        match &self.mode {
            Mode::Filter(buf) => text::lowercase(buf.as_str()),
            _ => self.filter.clone(),
        }
    }

    /// Whether a row passes a filter.
    pub fn row_visible(&self, i: usize, filter: &str) -> (r: bool)
        requires
            i < self@.rows(),
        ensures
            r == self@.passes(i as int, filter@),
    {
        settings::is_blank(filter) || scan::contains_text(self.row_hay(i).as_str(), filter)
    }

    /// How many rows are shown.
    pub fn visible_len(&self) -> (r: usize)
        ensures
            r == self@.visible_before(self@.rows()),
    {
        let f = self.active_filter();
        self.count_visible(self.rows_len(), f.as_str())
    }

    /// How many of the first `n` rows are shown.
    pub fn count_visible(&self, n: usize, f: &str) -> (r: usize)
        requires
            n <= self@.rows(),
            f@ == self@.active_filter(),
        ensures
            r == self@.visible_before(n as nat),
            r <= n,
    {
        let mut i: usize = 0;
        let mut count: usize = 0;
        while i < n
            invariant
                i <= n,
                n <= self@.rows(),
                f@ == self@.active_filter(),
                count == self@.visible_before(i as nat),
                count <= i,
            decreases n - i,
        {
            if self.row_visible(i, f) {
                count += 1;
            }
            i += 1;
        }
        count
    }

    /// The marks of the page.
    pub fn marks(&self) -> (r: &Vec<bool>)
        ensures
            r@ == self@.marks(),
    {
        match self.tab {
            Tab::Sessions => &self.sess_marks,
            Tab::Memories => &self.mem_marks,
        }
    }

    fn set_status(&mut self, ok: bool, s: String)
        ensures
            final(self)@ == old(self)@.saying(ok, s@),
            final(self).sessions == old(self).sessions,
            final(self).mems == old(self).mems,
    {
        self.status = Some((ok, s));
    }

    fn clear_status(&mut self)
        ensures
            final(self)@ == old(self)@.quiet(),
    {
        self.status = None;
    }

    fn find_down(&self, from: usize, f: &str) -> (r: usize)
        requires
            from <= self@.rows(),
            f@ == self@.active_filter(),
        ensures
            r == self@.next_visible(from as int),
            r <= self@.rows(),
    {
        let n: usize = self.rows_len();
        let mut i: usize = from;
        while i < n && !self.row_visible(i, f)
            invariant
                n == self@.rows(),
                i <= n,
                f@ == self@.active_filter(),
                self@.next_visible(i as int) == self@.next_visible(from as int),
            decreases n - i,
        {
            i += 1;
        }
        i
    }

    fn find_up(&self, from: usize, f: &str) -> (r: Option<usize>)
        requires
            from < self@.rows(),
            f@ == self@.active_filter(),
        ensures
            match r {
                Some(i) => i == self@.prev_visible(from as int) && i <= from,
                None => self@.prev_visible(from as int) == -1,
            },
    {
        let mut i: usize = from;
        loop
            invariant
                i <= from < self@.rows(),
                f@ == self@.active_filter(),
                self@.prev_visible(i as int) == self@.prev_visible(from as int),
            decreases i,
        {
            if self.row_visible(i, f) {
                return Some(i);
            }
            if i == 0 {
                proof {
                    assert(self@.prev_visible(-1) == -1);
                }
                return None;
            }
            i -= 1;
        }
    }

    /// Puts the cursor on a row that is shown.
    pub fn clamp_cursor(&mut self)
        ensures
            final(self)@ == old(self)@.clamped(),
    {
        let n: usize = self.rows_len();
        if n == 0 {
            self.cursor = 0;
            self.scroll = 0;
            return;
        }
        let c: usize = input::at_most(self.cursor, n - 1);
        let f = self.active_filter();
        let mut at: usize = c;
        if !self.row_visible(c, f.as_str()) {
            let down: usize = self.find_down(c, f.as_str());
            if down < n {
                at = down;
            } else {
                match self.find_up(c, f.as_str()) {
                    Some(i) => {
                        at = i;
                    },
                    None => {},
                }
            }
        }
        self.cursor = at;
        if at < self.scroll {
            self.scroll = at;
        }
    }

    fn step(&self, i: usize, down: bool) -> (r: Option<usize>)
        requires
            i < self@.rows(),
        ensures
            match r {
                Some(j) => self@.one_on(i as int, down) == Some(j as int) && j < self@.rows(),
                None => self@.one_on(i as int, down) is None,
            },
    {
        if down {
            if i < self.rows_len() - 1 {
                Some(i + 1)
            } else {
                None
            }
        } else if i > 0 {
            Some(i - 1)
        } else {
            None
        }
    }

    fn seek_row(&self, from: usize, down: bool, f: &str) -> (r: usize)
        requires
            from < self@.rows(),
            f@ == self@.active_filter(),
        ensures
            r == self@.seek(from as int, down),
            r < self@.rows(),
    {
        let mut i: usize = from;
        while !self.row_visible(i, f)
            invariant
                i < self@.rows(),
                f@ == self@.active_filter(),
                self@.seek(i as int, down) == self@.seek(from as int, down),
            ensures
                i < self@.rows(),
                i == self@.seek(from as int, down),
            decreases self@.ahead(i as int, down),
        {
            match self.step(i, down) {
                Some(j) => {
                    i = j;
                },
                None => {
                    break;
                },
            }
        }
        i
    }

    fn walk_rows(&self, from: usize, down: bool, steps: usize, f: &str) -> (r: usize)
        requires
            from < self@.rows(),
            f@ == self@.active_filter(),
        ensures
            r == self@.walk(from as int, down, steps as nat),
            r < self@.rows(),
    {
        let mut i: usize = from;
        let mut left: usize = steps;
        while left > 0
            invariant
                i < self@.rows(),
                f@ == self@.active_filter(),
                self@.walk(i as int, down, left as nat) == self@.walk(
                    from as int,
                    down,
                    steps as nat,
                ),
            ensures
                i < self@.rows(),
                i == self@.walk(from as int, down, steps as nat),
            decreases self@.ahead(i as int, down),
        {
            match self.step(i, down) {
                Some(j) => {
                    i = j;
                    if self.row_visible(j, f) {
                        left -= 1;
                    }
                },
                None => {
                    break;
                },
            }
        }
        i
    }

    /// Moves the cursor by `steps` rows that are shown.
    pub fn move_cursor(&mut self, down: bool, steps: usize)
        ensures
            final(self)@ == old(self)@.moved(down, steps as nat),
    {
        let n: usize = self.rows_len();
        if n == 0 {
            return;
        }
        let f = self.active_filter();
        let c: usize = input::at_most(self.cursor, n - 1);
        let from: usize = self.seek_row(c, down, f.as_str());
        self.cursor = self.walk_rows(from, down, steps, f.as_str());
        self.clamp_cursor();
    }

    /// Whether the row under the cursor is the current session.
    pub fn cursor_is_current(&self) -> (r: bool)
        ensures
            r == self@.is_current(self@.cursor as int),
    {
        self.row_is_current(self.cursor)
    }

    /// Whether a row is the current session.
    pub fn row_is_current(&self, idx: usize) -> (r: bool)
        ensures
            r == self@.is_current(idx as int),
    {
        self.tab == Tab::Sessions && idx < self.sessions.len() && self.sessions[idx].is_current
    }

    /// Sets or takes off the mark of the row under the cursor.
    pub fn toggle_mark(&mut self)
        ensures
            final(self)@ == mark_toggled(old(self)@),
    {
        if self.cursor_is_current() {
            self.set_status(false, text::copy(MARK_CURRENT));
            return;
        }
        let c: usize = self.cursor;
        match self.tab {
            Tab::Sessions => {
                if c < self.sess_marks.len() {
                    let m = !self.sess_marks[c];
                    self.sess_marks.set(c, m);
                }
            },
            Tab::Memories => {
                if c < self.mem_marks.len() {
                    let m = !self.mem_marks[c];
                    self.mem_marks.set(c, m);
                }
            },
        }
        self.clear_status();
    }

    /// The rows to be deleted.
    pub fn delete_candidates(&self) -> (r: Vec<usize>)
        ensures
            r@ == self@.candidates(),
    {
        let marks = self.marks();
        let mut marked: Vec<usize> = Vec::new();
        let mut i: usize = 0;
        while i < marks.len()
            invariant
                marks@ == self@.marks(),
                i <= marks.len(),
                marked@ == self@.marked_before(i as nat),
            decreases marks.len() - i,
        {
            if marks[i] && !self.row_is_current(i) {
                marked.push(i);
            }
            i += 1;
        }
        if marked.len() > 0 {
            return marked;
        }
        let mut r: Vec<usize> = Vec::new();
        if self.rows_len() != 0 && !self.row_is_current(self.cursor) {
            r.push(self.cursor);
            proof {
                assert(r@ =~= seq![self.cursor]);
            }
        }
        r
    }

    /// How many rows are to be deleted.
    pub fn marked_count_for_delete(&self) -> (r: usize)
        ensures
            r == self@.candidates().len(),
    {
        self.delete_candidates().len()
    }

    /// Whether no row is shown.
    pub fn empty(&self) -> (r: bool)
        ensures
            r == (self@.visible_before(self@.rows()) == 0),
    {
        self.visible_len() == 0
    }

    fn target_of(&self, i: usize) -> (r: String)
        requires
            i < self@.rows(),
        ensures
            r@ == (match self@.tab {
                Tab::Sessions => self@.sessions[i as int].path,
                Tab::Memories => self@.mems[i as int].filename,
            }),
    {
        match self.tab {
            Tab::Sessions => self.sessions[i].path.clone(),
            Tab::Memories => self.mems[i].filename.clone(),
        }
    }

    fn targets_of(&self, idxs: &Vec<usize>) -> (r: Vec<String>)
        requires
            forall|k: int| 0 <= k < idxs@.len() ==> (#[trigger] idxs@[k]) < self@.rows(),
        ensures
            scan::texts(r@) == self@.targets(idxs@),
    {
        let ghost all = self@.targets(idxs@);
        let mut r: Vec<String> = Vec::new();
        let mut k: usize = 0;
        while k < idxs.len()
            invariant
                forall|k: int| 0 <= k < idxs@.len() ==> (#[trigger] idxs@[k]) < self@.rows(),
                all == self@.targets(idxs@),
                k <= idxs.len(),
                scan::texts(r@) == all.take(k as int),
            decreases idxs.len() - k,
        {
            let t = self.target_of(idxs[k]);
            proof {
                assert(all[k as int] == t@);
                assert(all.take(k + 1) =~= all.take(k as int).push(t@));
            }
            scan::push_text(&mut r, t);
            k += 1;
        }
        proof {
            assert(all.take(k as int) =~= all);
        }
        r
    }

    fn confirm_delete(&mut self) -> (r: UiAction)
        requires
            old(self)@.wf(),
        ensures
            (final(self)@, r@) == delete_confirmed(old(self)@),
    {
        self.mode = Mode::Browse;
        let idxs = self.delete_candidates();
        if idxs.len() == 0 {
            self.set_status(false, text::copy(NOTHING_TO_DELETE));
            return UiAction::Idle;
        }
        proof {
            assert(self.sess_marks.len() <= usize::MAX);
            assert(self.mem_marks.len() <= usize::MAX);
            law_current_session_is_spared(self@);
        }
        let targets = self.targets_of(&idxs);
        match self.tab {
            Tab::Sessions => UiAction::DeleteSessions(targets),
            Tab::Memories => UiAction::DeleteMemories(targets),
        }
    }

    fn remove_row(&mut self, i: usize)
        requires
            i < old(self)@.rows(),
            old(self)@.sess_marks.len() == old(self)@.sessions.len(),
            old(self)@.mem_marks.len() == old(self)@.mems.len(),
        ensures
            final(self)@ == (match old(self)@.tab {
                Tab::Sessions => ManagerView {
                    sessions: old(self)@.sessions.remove(i as int),
                    sess_marks: old(self)@.sess_marks.remove(i as int),
                    ..old(self)@
                },
                Tab::Memories => ManagerView {
                    mems: old(self)@.mems.remove(i as int),
                    mem_marks: old(self)@.mem_marks.remove(i as int),
                    ..old(self)@
                },
            }),
    {
        match self.tab {
            Tab::Sessions => {
                self.sessions.remove(i);
                self.sess_marks.remove(i);
                proof {
                    assert(self@.sessions =~= old(self)@.sessions.remove(i as int));
                }
            },
            Tab::Memories => {
                self.mems.remove(i);
                self.mem_marks.remove(i);
                proof {
                    assert(self@.mems =~= old(self)@.mems.remove(i as int));
                }
            },
        }
    }

    fn remove_rows(&mut self, idxs: &Vec<usize>)
        requires
            old(self)@.sess_marks.len() == old(self)@.sessions.len(),
            old(self)@.mem_marks.len() == old(self)@.mems.len(),
            rising(idxs@, old(self)@.rows()),
        ensures
            final(self)@ == old(self)@.without(idxs@),
    {
        let mut k: usize = idxs.len();
        proof {
            assert(idxs@.take(k as int) =~= idxs@);
        }
        while k > 0
            invariant
                k <= idxs.len(),
                self@.sess_marks.len() == self@.sessions.len(),
                self@.mem_marks.len() == self@.mems.len(),
                rising(idxs@.take(k as int), self@.rows()),
                self@.without(idxs@.take(k as int)) == old(self)@.without(idxs@),
            decreases k,
        {
            k -= 1;
            let ghost before = self@;
            proof {
                assert(idxs@.take(k + 1)[k as int] == idxs@[k as int]);
                assert(idxs@.take(k + 1).drop_last() =~= idxs@.take(k as int));
                assert(idxs@.take(k + 1).last() == idxs@[k as int]);
            }
            self.remove_row(idxs[k]);
            proof {
                let t = idxs@.take(k as int);
                let t1 = idxs@.take(k + 1);
                assert forall|a: int| 0 <= a < t.len() implies (#[trigger] t[a]) < self@.rows() by {
                    assert(t[a] == t1[a]);
                    assert(t1[a] < t1[k as int]);
                }
                assert forall|a: int, b: int| 0 <= a < b < t.len() implies (#[trigger] t[a]) < (
                #[trigger] t[b]) by {
                    assert(t[a] == t1[a] && t[b] == t1[b]);
                }
            }
        }
        proof {
            assert(idxs@.take(0) =~= Seq::<usize>::empty());
        }
    }

    /// Takes in how the deletion went: for each row whether it is gone. The rows leave
    /// the list in any case.
    pub fn finish_delete(&mut self, removed: &Vec<bool>)
        requires
            old(self)@.wf(),
            removed.len() == old(self)@.candidates().len(),
        ensures
            final(self)@ == deleted(old(self)@, removed@),
    {
        let idxs = self.delete_candidates();
        proof {
            assert(self.sess_marks.len() <= usize::MAX);
            assert(self.mem_marks.len() <= usize::MAX);
            law_current_session_is_spared(self@);
        }
        let mut done: usize = 0;
        let mut i: usize = 0;
        proof {
            assert(removed@.take(0) =~= Seq::<bool>::empty());
        }
        while i < removed.len()
            invariant
                i <= removed.len(),
                done == count_true(removed@.take(i as int)),
                done <= i,
            decreases removed.len() - i,
        {
            proof {
                assert(removed@.take(i + 1).drop_last() =~= removed@.take(i as int));
            }
            if removed[i] {
                done += 1;
            }
            i += 1;
        }
        proof {
            assert(removed@.take(i as int) =~= removed@);
        }
        let failed: usize = removed.len() - done;
        self.remove_rows(&idxs);
        let d = text::dec(done);
        if failed == 0 {
            self.set_status(true, text::cat3("✔ 已删除 ", d.as_str(), " 条。"));
        } else {
            let e = text::dec(failed);
            self.set_status(
                false,
                text::cat5("已删除 ", d.as_str(), " 条,", e.as_str(), " 条失败。"),
            );
        }
        self.clamp_cursor();
    }

    /// Takes in whether a note was written.
    pub fn finish_note(&mut self, s: &str, result: Result<(), String>)
        ensures
            final(self)@ == noted(
                old(self)@,
                s@,
                match result {
                    Ok(_) => Ok(()),
                    Err(e) => Err(e@),
                },
            ),
    {
        let c: usize = self.cursor;
        if c >= self.sessions.len() {
            return;
        }
        match result {
            Ok(_) => {
                let t = scan::trim(s);
                let note = settings::opt_filled(&t);
                let brief = match &note {
                    Some(n) => text::cat3("「", settings::shorten(n.as_str(), 40).as_str(), "」"),
                    None => text::copy("已清除"),
                };
                let old_row = &self.sessions[c];
                let row = SessionRow {
                    path: old_row.path.clone(),
                    id: old_row.id.clone(),
                    headless: old_row.headless,
                    note,
                    size_kb: old_row.size_kb,
                    modified: old_row.modified,
                    is_current: old_row.is_current,
                };
                let ghost rv = row@;
                self.sessions.set(c, row);
                proof {
                    assert(rv == (SessionRowView {
                        note: note_of(s@),
                        ..old(self)@.sessions[c as int]
                    }));
                    assert(self@.sessions =~= old(self)@.sessions.update(c as int, rv));
                }
                self.set_status(true, text::cat2("✔ 备注已更新:", brief.as_str()));
            },
            Err(e) => {
                self.set_status(false, text::cat2("写备注失败: ", e.as_str()));
            },
        }
    }

    /// Opens the memory under the cursor, whose text has been read.
    pub fn show_memory(&mut self, raw: &str)
        ensures
            final(self)@ == reading(old(self)@, raw@),
    {
        let c: usize = self.cursor;
        if c >= self.mems.len() {
            return;
        }
        let title = text::cat3(self.mems[c].name.as_str(), " — ", self.mems[c].desc.as_str());
        let body = scan::lines(strip_frontmatter(raw).as_str());
        self.mode = Mode::Detail { title, body, offset: 0 };
    }

    /// Takes in a key press, and says what the host has to do.
    pub fn on_key(&mut self, key: KeyEvent) -> (r: UiAction)
        requires
            old(self)@.wf(),
        ensures
            (final(self)@, r@) == on_key_of(old(self)@, key.code),
    {
        let k = key.code;
        let mut mode = Mode::Browse;
        core::mem::swap(&mut mode, &mut self.mode);
        match mode {
            Mode::Detail { title, body, offset } => {
                self.on_detail_key(title, body, offset, k);
                UiAction::Idle
            },
            Mode::ConfirmDelete => {
                self.mode = Mode::ConfirmDelete;
                self.on_confirm_key(k)
            },
            Mode::EditNote(buf) => self.on_note_key(buf, k),
            Mode::Filter(buf) => {
                self.on_filter_key(buf, k);
                UiAction::Idle
            },
            Mode::Browse => self.on_browse_key(k),
        }
    }

    fn on_detail_key(&mut self, title: String, body: Vec<String>, offset: usize, k: KeyCode)
        requires
            old(self)@.mode is Browse,
        ensures
            final(self)@ == detail_key(
                ManagerView {
                    mode: ModeView::Detail { title: title@, body: scan::texts(body@), offset },
                    ..old(self)@
                },
                k,
            ),
    {
        if k == KeyCode::Esc {
            self.mode = Mode::Browse;
            return;
        }
        let o: usize = match k {
            KeyCode::Up => input::go_back(offset, 1),
            KeyCode::Down => input::go_on(offset, 1),
            KeyCode::PageUp => input::go_back(offset, 15),
            KeyCode::PageDown => input::go_on(offset, 15),
            KeyCode::Home => 0,
            KeyCode::End => usize::MAX,
            _ => offset,
        };
        self.mode = Mode::Detail { title, body, offset: o };
    }

    fn on_confirm_key(&mut self, k: KeyCode) -> (r: UiAction)
        requires
            old(self)@.wf(),
        ensures
            (final(self)@, r@) == confirm_key(old(self)@, k),
    {
        if input::key_letter(k, 'y', 'Y') {
            return self.confirm_delete();
        }
        if input::key_letter(k, 'n', 'N') || k == KeyCode::Esc {
            self.mode = Mode::Browse;
            self.clear_status();
        }
        UiAction::Idle
    }

    fn on_note_key(&mut self, buf: String, k: KeyCode) -> (r: UiAction)
        requires
            old(self)@.mode is Browse,
        ensures
            (final(self)@, r@) == note_key(
                ManagerView { mode: ModeView::EditNote(buf@), ..old(self)@ },
                buf@,
                k,
            ),
    {
        match k {
            KeyCode::Enter => {
                let c: usize = self.cursor;
                if c < self.sessions.len() {
                    return UiAction::WriteNote {
                        path: self.sessions[c].path.clone(),
                        text: buf,
                    };
                }
                UiAction::Idle
            },
            KeyCode::Esc => {
                self.clear_status();
                UiAction::Idle
            },
            KeyCode::Backspace => {
                self.mode = Mode::EditNote(text::drop_last_char(buf.as_str()));
                UiAction::Idle
            },
            KeyCode::Char(c) => {
                if text::char_is_control(c) {
                    self.mode = Mode::EditNote(buf);
                } else if text::count_chars(buf.as_str()) < NOTE_MAX_LEN {
                    let mut b = buf;
                    b.push(c);
                    self.mode = Mode::EditNote(b);
                } else {
                    self.mode = Mode::EditNote(buf);
                    let n = text::dec(NOTE_MAX_LEN);
                    self.set_status(false, text::cat3("备注最长 ", n.as_str(), " 字。"));
                }
                UiAction::Idle
            },
            _ => {
                self.mode = Mode::EditNote(buf);
                UiAction::Idle
            },
        }
    }

    fn on_filter_key(&mut self, buf: String, k: KeyCode)
        requires
            old(self)@.mode is Browse,
        ensures
            final(self)@ == filter_key(
                ManagerView { mode: ModeView::Filter(buf@), ..old(self)@ },
                buf@,
                k,
            ),
    {
        match k {
            KeyCode::Enter => {
                self.filter = text::lowercase(buf.as_str());
                self.clear_status();
                self.clamp_cursor();
            },
            KeyCode::Esc => {
                self.filter = String::new();
                self.clear_status();
                self.clamp_cursor();
            },
            KeyCode::Backspace => {
                self.mode = Mode::Filter(text::drop_last_char(buf.as_str()));
            },
            KeyCode::Char(c) => {
                let mut b = buf;
                if !text::char_is_control(c) {
                    b.push(c);
                }
                self.mode = Mode::Filter(b);
            },
            _ => {
                self.mode = Mode::Filter(buf);
            },
        }
    }

    fn on_browse_key(&mut self, k: KeyCode) -> (r: UiAction)
        requires
            old(self)@.wf(),
            old(self)@.mode is Browse,
        ensures
            (final(self)@, r@) == browse_key(old(self)@, k),
    {
        match k {
            KeyCode::Esc => UiAction::Exit,
            KeyCode::Tab => {
                self.switch_tab();
                UiAction::Idle
            },
            KeyCode::Up => {
                self.move_cursor(false, 1);
                UiAction::Idle
            },
            KeyCode::Down => {
                self.move_cursor(true, 1);
                UiAction::Idle
            },
            KeyCode::PageUp => {
                self.move_cursor(false, 10);
                UiAction::Idle
            },
            KeyCode::PageDown => {
                self.move_cursor(true, 10);
                UiAction::Idle
            },
            KeyCode::Home => {
                if self.rows_len() > 0 {
                    self.move_cursor(false, self.cursor + 1);
                }
                UiAction::Idle
            },
            KeyCode::End => {
                self.move_cursor(true, self.rows_len());
                UiAction::Idle
            },
            KeyCode::Enter => self.enter(),
            KeyCode::Delete => {
                self.ask_delete();
                UiAction::Idle
            },
            KeyCode::Char(c) => {
                self.on_browse_char(c);
                UiAction::Idle
            },
            _ => UiAction::Idle,
        }
    }

    fn switch_tab(&mut self)
        ensures
            final(self)@ == (ManagerView {
                tab: other_tab(old(self)@.tab),
                cursor: 0,
                scroll: 0,
                ..old(self)@
            }).clamped().quiet(),
    {
        self.tab = match self.tab {
            Tab::Sessions => Tab::Memories,
            Tab::Memories => Tab::Sessions,
        };
        self.cursor = 0;
        self.scroll = 0;
        self.clamp_cursor();
        self.clear_status();
    }

    fn enter(&mut self) -> (r: UiAction)
        requires
            old(self)@.wf(),
        ensures
            (final(self)@, r@) == entered(old(self)@),
    {
        if self.empty() {
            return UiAction::Idle;
        }
        proof {
            assert(self@.rows() > 0);
        }
        match self.tab {
            Tab::Sessions => {
                if self.cursor_is_current() {
                    self.set_status(false, text::copy(IS_CURRENT));
                    return UiAction::Idle;
                }
                UiAction::Resume(self.sessions[self.cursor].path.clone())
            },
            Tab::Memories => UiAction::ReadMemory(self.mems[self.cursor].filename.clone()),
        }
    }

    fn ask_delete(&mut self)
        requires
            old(self)@.mode is Browse,
        ensures
            final(self)@ == delete_asked(old(self)@),
    {
        if self.delete_candidates().len() == 0 {
            self.set_status(false, text::copy(CANNOT_DELETE));
            return;
        }
        self.mode = Mode::ConfirmDelete;
    }

    fn on_browse_char(&mut self, c: char)
        requires
            old(self)@.wf(),
            old(self)@.mode is Browse,
        ensures
            final(self)@ == browse_key(old(self)@, KeyCode::Char(c)).0,
    {
        if c == ' ' || c == 'x' || c == 'X' {
            self.toggle_mark();
            return;
        }
        if c == 'd' || c == 'D' {
            self.ask_delete();
            return;
        }
        if (c == 'n' || c == 'N') && self.tab == Tab::Sessions && self.sessions.len() > 0 {
            let note = settings::or_empty(&self.sessions[self.cursor].note);
            self.mode = Mode::EditNote(note);
            return;
        }
        if c == '/' {
            self.mode = Mode::Filter(self.filter.clone());
        }
    }
}

/// Takes the block of metadata off the front of a text.
pub fn strip_frontmatter(content: &str) -> (r: String)
    ensures
        r@ == without_frontmatter(content@),
{
    let mut body = text::copy(content);
    proof {
        reveal_strlit("---");
        reveal_strlit("\n---");
    }
    if scan::starts_with(content, "---") {
        let v = text::chars_of(content);
        let rest = text::string_of(&v, 3, v.len());
        proof {
            assert(rest@ =~= content@.skip(3));
        }
        match scan::find_sub(rest.as_str(), "\n---") {
            Some(at) => {
                let w = text::chars_of(rest.as_str());
                body = text::string_of(&w, at + 4, w.len());
                proof {
                    assert(body@ =~= rest@.skip(at + 4));
                }
            },
            None => {},
        }
    }
    let b = text::chars_of(body.as_str());
    let mut i: usize = 0;
    while i < b.len() && b[i] == '\n'
        invariant
            i <= b.len(),
            past_feeds(b@, i as int) == past_feeds(b@, 0),
        decreases b.len() - i,
    {
        i += 1;
    }
    let r = text::string_of(&b, i, b.len());
    proof {
        assert(r@ =~= body@.skip(i as int));
    }
    r
}

// ------------------------------------------------------------------------ laws

/// Positions in rising order, all below `n`.
pub open spec fn rising(idxs: Seq<usize>, n: nat) -> bool {
    &&& forall|a: int| 0 <= a < idxs.len() ==> (#[trigger] idxs[a]) < n
    &&& forall|a: int, b: int| 0 <= a < b < idxs.len() ==> (#[trigger] idxs[a]) < (#[trigger] idxs[b])
}

proof fn lemma_marked(u: ManagerView, n: nat)
    requires
        n <= u.marks().len() <= usize::MAX,
    ensures
        rising(u.marked_before(n), n),
        forall|a: int|
            0 <= a < u.marked_before(n).len() ==> {
                &&& u.marks()[(#[trigger] u.marked_before(n)[a]) as int]
                &&& !u.is_current(u.marked_before(n)[a] as int)
            },
    decreases n,
{
    if n > 0 {
        lemma_marked(u, (n - 1) as nat);
    }
}

/// The rows to be deleted are rows of the page, each once, and the current session
/// is never among them.
pub proof fn law_current_session_is_spared(u: ManagerView)
    requires
        u.wf(),
        u.marks().len() <= usize::MAX,
    ensures
        rising(u.candidates(), u.rows()),
        forall|a: int|
            0 <= a < u.candidates().len() ==> !u.is_current(
                (#[trigger] u.candidates()[a]) as int,
            ),
{
    lemma_marked(u, u.marks().len());
}

proof fn lemma_next_visible(u: ManagerView, i: int)
    requires
        0 <= i <= u.rows(),
    ensures
        i <= u.next_visible(i) <= u.rows(),
        u.next_visible(i) < u.rows() ==> u.visible(u.next_visible(i)),
        forall|k: int| i <= k < u.next_visible(i) ==> !#[trigger] u.visible(k),
    decreases u.rows() - i,
{
    if i < u.rows() && !u.visible(i) {
        lemma_next_visible(u, i + 1);
    }
}

proof fn lemma_prev_visible(u: ManagerView, i: int)
    requires
        -1 <= i < u.rows(),
    ensures
        -1 <= u.prev_visible(i) <= i,
        u.prev_visible(i) >= 0 ==> u.visible(u.prev_visible(i)),
        forall|k: int| u.prev_visible(i) < k <= i ==> !#[trigger] u.visible(k),
    decreases i + 1,
{
    if i >= 0 && !u.visible(i) {
        lemma_prev_visible(u, i - 1);
    }
}

/// Whether a row is shown does not depend on where the cursor stands.
proof fn lemma_visible_is_fixed(u: ManagerView, cursor: usize, scroll: usize)
    ensures
        forall|i: int|
            #[trigger] (ManagerView { cursor, scroll, ..u }).visible(i) == u.visible(i),
{
}

/// Wherever any row is shown, the cursor comes to stand on one that is, so that what
/// is resumed, read or deleted is in sight.
pub proof fn law_cursor_is_in_sight(u: ManagerView, i: int)
    requires
        0 <= i < u.rows() <= usize::MAX,
        u.visible(i),
    ensures
        u.clamped().cursor < u.rows(),
        u.clamped().visible(u.clamped().cursor as int),
{
    let c = if u.cursor < u.rows() {
        u.cursor as int
    } else {
        u.rows() - 1
    };
    lemma_next_visible(u, c);
    lemma_prev_visible(u, c);
    lemma_visible_is_fixed(u, u.clamped().cursor, u.clamped().scroll);
}

/// Moving keeps the cursor on the list, and on a row that is shown where any is.
pub proof fn law_moving_stays_in_sight(u: ManagerView, down: bool, steps: nat, i: int)
    requires
        u.wf(),
        0 <= i < u.rows() <= usize::MAX,
        u.visible(i),
    ensures
        u.moved(down, steps).cursor < u.rows(),
        u.moved(down, steps).visible(u.moved(down, steps).cursor as int),
{
    let at = u.walk(u.seek(u.cursor as int, down), down, steps);
    let x = ManagerView { cursor: at as usize, ..u };
    assert(x.visible(i));
    law_cursor_is_in_sight(x, i);
}

pub proof fn lemma_clamped_wf(u: ManagerView)
    requires
        u.sess_marks.len() == u.sessions.len(),
        u.mem_marks.len() == u.mems.len(),
        u.rows() <= usize::MAX,
    ensures
        u.clamped().wf(),
{
    if u.rows() > 0 {
        let c = if u.cursor < u.rows() {
            u.cursor as int
        } else {
            u.rows() - 1
        };
        lemma_next_visible(u, c);
        lemma_prev_visible(u, c);
    }
}

/// Every key keeps a mark for each row and the cursor on the list.
pub proof fn law_keys_keep_the_list_whole(u: ManagerView, k: KeyCode)
    requires
        u.wf(),
        u.sessions.len() <= usize::MAX,
        u.mems.len() <= usize::MAX,
    ensures
        on_key_of(u, k).0.wf(),
{
    let t = ManagerView { tab: other_tab(u.tab), cursor: 0, scroll: 0, ..u };
    lemma_clamped_wf(t);
    match u.mode {
        ModeView::Filter(buf) => {
            let browse = ManagerView { mode: ModeView::Browse, ..u };
            lemma_clamped_wf(ManagerView { filter: text::low(buf), ..browse }.quiet());
            lemma_clamped_wf(ManagerView { filter: Seq::empty(), ..browse }.quiet());
        },
        ModeView::Browse => {
            assert forall|down: bool, steps: nat| (#[trigger] u.moved(down, steps)).wf() by {
                let at = u.walk(u.seek(u.cursor as int, down), down, steps);
                lemma_clamped_wf(ManagerView { cursor: at as usize, ..u });
            }
        },
        _ => {},
    }
}

/// Nothing is deleted without a question: a deletion is handed to the host only on
/// `y` to it, and the current session is never part of it.
pub proof fn law_deletion_is_confirmed(u: ManagerView, k: KeyCode)
    ensures
        on_key_of(u, k).1 is DeleteSessions || on_key_of(u, k).1 is DeleteMemories ==> {
            &&& u.mode is ConfirmDelete
            &&& input::is_letter(k, 'y', 'Y')
        },
{
}

/// Only a session that is in sight, and not the current one, is resumed, as long as
/// the cursor stands in sight.
pub proof fn law_resumed_session_is_in_sight(u: ManagerView, k: KeyCode)
    requires
        u.wf(),
        u.mode is Browse,
    ensures
        on_key_of(u, k).1 is Resume ==> {
            &&& k == KeyCode::Enter
            &&& u.tab == Tab::Sessions
            &&& !u.is_current(u.cursor as int)
            &&& on_key_of(u, k).1 == UiView::Resume(u.sessions[u.cursor as int].path)
            &&& u.visible_before(u.rows()) > 0
        },
{
}

/// A note that is being typed never grows beyond its limit.
pub proof fn law_notes_are_bounded(u: ManagerView, buf: Seq<char>, k: KeyCode)
    requires
        u.mode == ModeView::EditNote(buf),
        buf.len() <= NOTE_MAX_LEN,
    ensures
        on_key_of(u, k).0.mode is EditNote ==> on_key_of(u, k).0.mode->EditNote_0.len()
            <= NOTE_MAX_LEN,
{
}

/// A filter that was confirmed holds until it is taken back: no key in the list
/// changes it.
pub proof fn law_filter_stays(u: ManagerView, k: KeyCode)
    requires
        !(u.mode is Filter),
    ensures
        on_key_of(u, k).0.filter == u.filter,
{
}

} // verus!
