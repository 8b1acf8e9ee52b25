//! The program as a whole: what keys, pasted text and answers do to what is shown, and
//! what has to be done outside for them.
use crate::command;
use crate::command::{Act, ActView, Answer, AnswerView, Command, CommandView};
use crate::completion;
use crate::completion::{Completion, CompletionItem, CompletionKind, CompletionView};
use crate::completion_menu;
use crate::completion_menu::{MenuStep, MenuView, Refresh, RefreshView};
use crate::editor;
use crate::editor::TextAction;
use crate::input::{KeyCode, KeyEvent};
use crate::messages;
use crate::messages::{MsgItem, MsgView};
use crate::mode;
use crate::mode::Mode;
use crate::scan;
use crate::scroll;
use crate::scroll::Scroll;
use crate::text;
use crate::transcript;
use crate::transcript::{TalkView, Transcript};
use vstd::prelude::*;

verus! {

// ----------------------------------------------------------------------- types

/// What is asked before it is done.
#[derive(Clone, Copy, Debug, PartialEq, Eq, Structural)]
pub enum ConfirmAction {
    ClearSession,
}

/// A question before something is done.
#[derive(Debug)]
pub struct ConfirmBox {
    pub title: String,
    pub body: String,
    pub action: ConfirmAction,
}

/// What a question holds.
#[verifier::ext_equal]
pub struct ConfirmView {
    pub title: Seq<char>,
    pub body: Seq<char>,
    pub action: ConfirmAction,
}

impl View for ConfirmBox {
    type V = ConfirmView;

    open spec fn view(&self) -> ConfirmView {
        ConfirmView { title: self.title@, body: self.body@, action: self.action }
    }
}

/// What a question holds, where there is one.
pub open spec fn confirm_view(o: Option<ConfirmBox>) -> Option<ConfirmView> {
    match o {
        Some(c) => Some(c@),
        None => None,
    }
}

/// The program.
#[derive(Debug)]
pub struct App {
    pub talk: Transcript,
    /// The text that is being typed, and the cursor's place in it.
    pub input: String,
    pub cursor: usize,
    /// The list of candidates, where one is open.
    pub completion: Option<Completion>,
    pub scroll: Scroll,
    pub mode: Mode,
    pub confirm: Option<ConfirmBox>,
    /// Whether there is a model to talk to.
    pub configured: bool,
    /// Whether the user was told that the context is nearly full.
    pub warned: bool,
    /// Whether the program is to end.
    pub quit: bool,
}

/// What the program holds.
#[verifier::ext_equal]
pub struct AppView {
    pub talk: TalkView,
    pub input: Seq<char>,
    pub cursor: nat,
    pub completion: Option<CompletionView>,
    pub scroll: Scroll,
    pub mode: Mode,
    pub confirm: Option<ConfirmView>,
    pub configured: bool,
    pub warned: bool,
    pub quit: bool,
}

impl View for App {
    type V = AppView;

    open spec fn view(&self) -> AppView {
        AppView {
            talk: self.talk@,
            input: self.input@,
            cursor: self.cursor as nat,
            completion: completion::opt_view(self.completion),
            scroll: self.scroll,
            mode: self.mode,
            confirm: confirm_view(self.confirm),
            configured: self.configured,
            warned: self.warned,
            quit: self.quit,
        }
    }
}

impl AppView {
    /// The cursor stands between two characters of the text.
    pub open spec fn wf(self) -> bool {
        editor::is_place(self.input, self.cursor)
    }

    /// The list of candidates is for a word that begins at a place before the cursor.
    pub open spec fn list_fits(self) -> bool {
        match self.completion {
            Some(c) => editor::is_place(self.input, c.word_start) && c.word_start <= self.cursor,
            None => true,
        }
    }
}

/// What has to be done outside.
#[derive(Debug)]
pub enum Action {
    /// Nothing.
    Idle,
    /// The program ends at once.
    Exit,
    /// A permission is given or denied, once or for the session.
    Permit { allow: bool, always: bool },
    /// The session is cleared.
    ClearContext,
    /// The key is for the configuration.
    ToWizard,
    /// The key is for the session manager.
    ToSessions,
    OpenWizard,
    OpenSessions,
    /// A task for the session.
    Prompt(String),
    RunSkill { name: String, args: String },
    Compact,
    Load(String),
    Delete(String),
    SetPersona(String),
    CheckUpdate,
    /// Something is looked up or done, and the command answered with that.
    Ask(Command),
    /// The turn is interrupted.
    Interrupt,
    SetMode(Mode),
}

/// What has to be done outside.
pub enum ActionView {
    Idle,
    Exit,
    Permit { allow: bool, always: bool },
    ClearContext,
    ToWizard,
    ToSessions,
    OpenWizard,
    OpenSessions,
    Prompt(Seq<char>),
    RunSkill { name: Seq<char>, args: Seq<char> },
    Compact,
    Load(Seq<char>),
    Delete(Seq<char>),
    SetPersona(Seq<char>),
    CheckUpdate,
    Ask(CommandView),
    Interrupt,
    SetMode(Mode),
}

impl View for Action {
    type V = ActionView;

    open spec fn view(&self) -> ActionView {
        match self {
            Action::Idle => ActionView::Idle,
            Action::Exit => ActionView::Exit,
            Action::Permit { allow, always } => ActionView::Permit {
                allow: *allow,
                always: *always,
            },
            Action::ClearContext => ActionView::ClearContext,
            Action::ToWizard => ActionView::ToWizard,
            Action::ToSessions => ActionView::ToSessions,
            Action::OpenWizard => ActionView::OpenWizard,
            Action::OpenSessions => ActionView::OpenSessions,
            Action::Prompt(t) => ActionView::Prompt(t@),
            Action::RunSkill { name, args } => ActionView::RunSkill { name: name@, args: args@ },
            Action::Compact => ActionView::Compact,
            Action::Load(p) => ActionView::Load(p@),
            Action::Delete(p) => ActionView::Delete(p@),
            Action::SetPersona(n) => ActionView::SetPersona(n@),
            Action::CheckUpdate => ActionView::CheckUpdate,
            Action::Ask(c) => ActionView::Ask(c@),
            Action::Interrupt => ActionView::Interrupt,
            Action::SetMode(m) => ActionView::SetMode(*m),
        }
    }
}

// --------------------------------------------------------------------- small steps

/// The program with one more notice.
pub open spec fn noticed(s: AppView, t: Seq<char>) -> AppView {
    AppView {
        talk: TalkView { items: s.talk.items.push(MsgView::Notice(t)), ..s.talk },
        ..s
    }
}

/// The program with nothing typed.
pub open spec fn emptied(s: AppView) -> AppView {
    AppView { input: Seq::empty(), cursor: 0, ..s }
}

/// The program at work, with its last lines in view once it is drawn.
pub open spec fn at_work(s: AppView) -> AppView {
    AppView {
        talk: TalkView { busy: true, ..s.talk },
        scroll: Scroll { at_bottom: true, ..s.scroll },
        ..s
    }
}

/// The program at work on what was said.
pub open spec fn asked(s: AppView, t: Seq<char>) -> AppView {
    at_work(
        AppView {
            talk: TalkView { items: s.talk.items.push(MsgView::User(t)), ..s.talk },
            ..s
        },
    )
}

/// The question before the session is cleared.
pub open spec fn clear_question() -> ConfirmView {
    ConfirmView {
        title: "清空会话?"@,
        body: "将清空本会话全部上下文(模型记忆)与历史文件(jsonl),不可恢复。\n清空后继续对话不再带此前任何内容,重要内容先自己保存。"@,
        action: ConfirmAction::ClearSession,
    }
}

/// The program with the items of an answer.
pub open spec fn shown(s: AppView, items: Seq<MsgView>) -> AppView {
    AppView { talk: TalkView { items: s.talk.items + items, ..s.talk }, ..s }
}

/// What an answer does: its items are shown; no task is begun before there is a model
/// to talk to.
pub open spec fn taken(s: AppView, a: AnswerView) -> (AppView, ActionView) {
    let t = shown(s, a.items);
    match a.act {
        ActView::Idle => (t, ActionView::Idle),
        ActView::Task(p) => if s.configured {
            (asked(t, p), ActionView::Prompt(p))
        } else {
            (
                noticed(t, "⚠ 尚未完成配置,不能执行任务。先输入 /config 完成配置。"@),
                ActionView::Idle,
            )
        },
        ActView::RunSkill { name, args } => if s.configured {
            (at_work(t), ActionView::RunSkill { name, args })
        } else {
            (
                noticed(t, "⚠ 尚未完成配置,不能执行技能。先输入 /config 完成配置。"@),
                ActionView::Idle,
            )
        },
        ActView::Compact => if s.configured {
            (t, ActionView::Compact)
        } else {
            (
                noticed(
                    t,
                    "⚠ 尚未完成配置,不能压缩上下文。先输入 /config 完成配置。"@,
                ),
                ActionView::Idle,
            )
        },
        ActView::Quit => (AppView { quit: true, ..t }, ActionView::Idle),
        ActView::OpenSessions => (t, ActionView::OpenSessions),
        ActView::ConfirmClear => (
            AppView { confirm: Some(clear_question()), ..t },
            ActionView::Idle,
        ),
        ActView::Load(p) => (t, ActionView::Load(p)),
        ActView::Delete(p) => (t, ActionView::Delete(p)),
        ActView::SetPersona(n) => (t, ActionView::SetPersona(n)),
        ActView::CheckUpdate => (t, ActionView::CheckUpdate),
        ActView::Ask(c) => (t, ActionView::Ask(c)),
    }
}

/// What sending the text does: a command is answered; what is no command becomes a
/// task, unless the session is busy or there is no model to talk to.
pub open spec fn submitted(s: AppView) -> (AppView, ActionView) {
    let raw = scan::trimmed(s.input);
    if raw.len() == 0 {
        (AppView { cursor: 0, ..s }, ActionView::Idle)
    } else if raw == "/config"@ {
        (emptied(noticed(s, "打开配置向导…"@)), ActionView::OpenWizard)
    } else if raw[0] == '/' {
        let (t, a) = taken(s, command::answer_of(command::command_of(raw)));
        (emptied(t), a)
    } else if s.talk.busy {
        (s, ActionView::Idle)
    } else if !s.configured {
        (
            emptied(
                noticed(s, "⚠ 尚未完成配置,不能对话。先输入 /config 完成配置。"@),
            ),
            ActionView::Idle,
        )
    } else {
        (emptied(asked(s, raw)), ActionView::Prompt(raw))
    }
}

/// The text and the cursor with a text put in.
pub open spec fn typed(s: AppView, t: Seq<char>) -> AppView {
    AppView {
        input: editor::put(s.input, editor::begun(s.input, s.cursor), t),
        cursor: s.cursor + editor::byte_len(t),
        ..s
    }
}

/// What a key does to the text under the cursor.
pub open spec fn edited(s: AppView, key: KeyEvent) -> (AppView, ActionView) {
    match editor::text_action(key) {
        TextAction::Idle => (s, ActionView::Idle),
        TextAction::Insert(c) => (
            if text::is_control(c) {
                s
            } else {
                typed(s, seq![c])
            },
            ActionView::Idle,
        ),
        TextAction::Newline => (typed(s, seq!['\n']), ActionView::Idle),
        TextAction::Backspace => (
            AppView {
                input: if s.cursor == 0 {
                    s.input
                } else {
                    editor::cut(
                        s.input,
                        editor::begun(s.input, s.cursor) - 1,
                        editor::begun(s.input, s.cursor),
                    )
                },
                cursor: editor::prev_place(s.input, s.cursor),
                ..s
            },
            ActionView::Idle,
        ),
        TextAction::Submit => submitted(s),
    }
}

/// The program in the mode that follows.
pub open spec fn cycled(s: AppView) -> (AppView, ActionView) {
    let m = mode::following(s.mode);
    (
        noticed(
            AppView { mode: m, ..s },
            "🔒 权限模式:"@ + mode::meaning(m) + " (Shift+Tab 循环切换)"@,
        ),
        ActionView::SetMode(m),
    )
}

/// What a key does that is for no window: the cursor moves, the text changes, the
/// messages scroll, the turn is interrupted or the mode changes.
pub open spec fn plain_key(s: AppView, key: KeyEvent) -> (AppView, ActionView) {
    match key.code {
        KeyCode::Left => (
            AppView { cursor: editor::prev_place(s.input, s.cursor), ..s },
            ActionView::Idle,
        ),
        KeyCode::Right => (
            AppView { cursor: editor::next_place(s.input, s.cursor), ..s },
            ActionView::Idle,
        ),
        KeyCode::Delete => (
            AppView {
                input: if s.cursor >= editor::byte_len(s.input) {
                    s.input
                } else {
                    editor::cut(
                        s.input,
                        editor::begun(s.input, s.cursor),
                        editor::begun(s.input, s.cursor) + 1,
                    )
                },
                ..s
            },
            ActionView::Idle,
        ),
        KeyCode::Char(_) => edited(s, key),
        KeyCode::Enter => edited(s, key),
        KeyCode::Backspace => edited(s, key),
        KeyCode::Esc => if s.talk.busy {
            (noticed(s, "⏹ 已请求中断…"@), ActionView::Interrupt)
        } else {
            (s, ActionView::Idle)
        },
        KeyCode::BackTab => cycled(s),
        KeyCode::Tab => if key.shift {
            cycled(s)
        } else {
            (s, ActionView::Idle)
        },
        _ => (
            AppView { scroll: scroll::key_scrolled(s.scroll, key.code), ..s },
            ActionView::Idle,
        ),
    }
}

/// What a key does while a permission is asked for: it is given, given for the
/// session, or denied; any other key leaves the question open.
pub open spec fn permission_key(s: AppView, k: KeyCode) -> (AppView, ActionView) {
    let gone = AppView { talk: TalkView { permission: None, ..s.talk }, ..s };
    if k == KeyCode::Char('y') || k == KeyCode::Char('Y') {
        (gone, ActionView::Permit { allow: true, always: false })
    } else if k == KeyCode::Char('a') || k == KeyCode::Char('A') {
        (gone, ActionView::Permit { allow: true, always: true })
    } else if k == KeyCode::Char('n') || k == KeyCode::Char('N') || k == KeyCode::Esc {
        (gone, ActionView::Permit { allow: false, always: false })
    } else {
        (s, ActionView::Idle)
    }
}

/// What a key does while a question is open: it is confirmed or not; any other key
/// leaves it open.
pub open spec fn confirm_key(s: AppView, k: KeyCode) -> (AppView, ActionView) {
    let gone = AppView { confirm: None, ..s };
    if k == KeyCode::Char('y') || k == KeyCode::Char('Y') {
        (
            AppView { talk: TalkView { items: Seq::empty(), ..gone.talk }, ..gone },
            ActionView::ClearContext,
        )
    } else if k == KeyCode::Char('n') || k == KeyCode::Char('N') || k == KeyCode::Esc {
        (noticed(gone, "已取消清空。"@), ActionView::Idle)
    } else {
        (s, ActionView::Idle)
    }
}

/// A key that takes a candidate finds the list in place: the word begins at a place
/// of the text, and not behind the cursor. Other keys take no notice of it.
pub open spec fn can_take(s: AppView, key: KeyEvent) -> bool {
    ({
        &&& s.talk.permission is None
        &&& s.confirm is None
        &&& !(key.code == KeyCode::Char('c') && key.control)
        &&& completion_menu::menu_step(s.completion, key) is Take
    }) ==> s.list_fits()
}

/// What a key does. It goes to the first of these that is there: a permission, a
/// question, the list of candidates where it is a key for that, the configuration, the
/// session manager; else it is for the text and the messages. `Ctrl+C` ends the
/// program wherever it is.
pub open spec fn keyed(s: AppView, key: KeyEvent, wizard: bool, sessions: bool) -> (
    AppView,
    ActionView,
) {
    if key.code == KeyCode::Char('c') && key.control {
        (s, ActionView::Exit)
    } else if s.talk.permission is Some {
        permission_key(s, key.code)
    } else if s.confirm is Some {
        confirm_key(s, key.code)
    } else {
        match completion_menu::menu_step(s.completion, key) {
            MenuView::Used(c) => (AppView { completion: Some(c), ..s }, ActionView::Idle),
            MenuView::Take(c) => {
                let (t, e) = completion_menu::accepted(s.input, s.cursor, c);
                (AppView { input: t, cursor: e, completion: None, ..s }, ActionView::Idle)
            },
            MenuView::Pass(_) => if wizard {
                (s, ActionView::ToWizard)
            } else if sessions {
                (s, ActionView::ToSessions)
            } else {
                plain_key(s, key)
            },
        }
    }
}

impl App {
    /// Shows a notice.
    pub fn notice(&mut self, t: String)
        ensures
            final(self)@ == noticed(old(self)@, t@),
    {
        self.talk.notice(t);
    }

    fn clear_input(&mut self)
        ensures
            final(self)@ == emptied(old(self)@),
    {
        self.input = String::new();
        self.cursor = 0;
    }

    fn begin_work(&mut self)
        ensures
            final(self)@ == at_work(old(self)@),
    {
        self.talk.busy = true;
        self.scroll.follow();
    }

    fn ask(&mut self, t: String)
        ensures
            final(self)@ == asked(old(self)@, t@),
    {
        messages::push_item(&mut self.talk.items, MsgItem::User(t));
        self.begin_work();
    }

    fn show(&mut self, items: Vec<MsgItem>)
        ensures
            final(self)@ == shown(old(self)@, messages::msg_views(items@)),
    {
        let mut items = items;
        let ghost new = items@;
        let ghost was = self.talk.items@;
        self.talk.items.append(&mut items);
        proof {
            reveal(messages::msg_views);
            assert(messages::msg_views(self.talk.items@) =~= messages::msg_views(was)
                + messages::msg_views(new));
        }
    }

    fn question(&mut self)
        ensures
            final(self)@ == (AppView { confirm: Some(clear_question()), ..old(self)@ }),
    {
        self.confirm = Some(
            ConfirmBox {
                title: text::copy("清空会话?"),
                body: text::copy(
                    "将清空本会话全部上下文(模型记忆)与历史文件(jsonl),不可恢复。\n清空后继续对话不再带此前任何内容,重要内容先自己保存。",
                ),
                action: ConfirmAction::ClearSession,
            },
        );
    }

    /// Takes the answer to a command: shows its items, and returns what has to be done
    /// outside.
    pub fn take_answer(&mut self, a: Answer) -> (r: Action)
        ensures
            (final(self)@, r@) == taken(old(self)@, a@),
            final(self)@.input == old(self)@.input,
            final(self)@.cursor == old(self)@.cursor,
    {
        self.show(a.items);
        match a.act {
            Act::Idle => Action::Idle,
            Act::Task(p) => {
                if !self.configured {
                    self.notice(
                        text::copy(
                            "⚠ 尚未完成配置,不能执行任务。先输入 /config 完成配置。",
                        ),
                    );
                    return Action::Idle;
                }
                self.ask(p.clone());
                Action::Prompt(p)
            },
            Act::RunSkill { name, args } => {
                if !self.configured {
                    self.notice(
                        text::copy(
                            "⚠ 尚未完成配置,不能执行技能。先输入 /config 完成配置。",
                        ),
                    );
                    return Action::Idle;
                }
                self.begin_work();
                Action::RunSkill { name, args }
            },
            Act::Compact => {
                if !self.configured {
                    self.notice(
                        text::copy(
                            "⚠ 尚未完成配置,不能压缩上下文。先输入 /config 完成配置。",
                        ),
                    );
                    return Action::Idle;
                }
                Action::Compact
            },
            Act::Quit => {
                self.quit = true;
                Action::Idle
            },
            Act::OpenSessions => Action::OpenSessions,
            Act::ConfirmClear => {
                self.question();
                Action::Idle
            },
            Act::Load(p) => Action::Load(p),
            Act::Delete(p) => Action::Delete(p),
            Act::SetPersona(n) => Action::SetPersona(n),
            Act::CheckUpdate => Action::CheckUpdate,
            Act::Ask(c) => Action::Ask(c),
        }
    }

    fn submit(&mut self) -> (r: Action)
        ensures
            (final(self)@, r@) == submitted(old(self)@),
    {
        let raw = scan::trim(self.input.as_str());
        let v = text::chars_of(raw.as_str());
        if v.len() == 0 {
            self.cursor = 0;
            return Action::Idle;
        }
        if text::same(raw.as_str(), "/config") {
            self.notice(text::copy("打开配置向导…"));
            self.clear_input();
            return Action::OpenWizard;
        }
        if v[0] == '/' {
            let answer = command::handle_command(command::parse_command(raw.as_str()));
            let a = self.take_answer(answer);
            self.clear_input();
            return a;
        }
        if self.talk.busy {
            return Action::Idle;
        }
        if !self.configured {
            self.notice(
                text::copy("⚠ 尚未完成配置,不能对话。先输入 /config 完成配置。"),
            );
            self.clear_input();
            return Action::Idle;
        }
        self.ask(raw.clone());
        self.clear_input();
        Action::Prompt(raw)
    }

    fn put_in(&mut self, t: &str)
        requires
            old(self)@.wf(),
        ensures
            final(self)@ == typed(old(self)@, t@),
            final(self)@.wf(),
    {
        proof {
            editor::lemma_begun_bound(self.input@, self.cursor as nat);
            editor::lemma_begun_place(self.input@, editor::begun(self.input@, self.cursor as nat));
            editor::law_insert_keeps_place(self.input@, self.cursor as nat, t@);
        }
        self.cursor = editor::insert_str_at(&mut self.input, self.cursor, t);
    }

    fn edit(&mut self, key: KeyEvent) -> (r: Action)
        requires
            old(self)@.wf(),
        ensures
            (final(self)@, r@) == edited(old(self)@, key),
            final(self)@.wf(),
    {
        match editor::handle_text_key(key) {
            TextAction::Idle => Action::Idle,
            TextAction::Insert(c) => {
                if !text::char_is_control(c) {
                    let t = text::of_char(c);
                    self.put_in(t.as_str());
                }
                Action::Idle
            },
            TextAction::Newline => {
                let t = text::of_char('\n');
                self.put_in(t.as_str());
                Action::Idle
            },
            TextAction::Backspace => {
                proof {
                    editor::law_moves_keep_place(self.input@, self.cursor as nat);
                    if self.cursor > 0 {
                        editor::law_backspace_keeps_place(self.input@, self.cursor as nat);
                    }
                }
                self.cursor = editor::backspace_at(&mut self.input, self.cursor);
                Action::Idle
            },
            TextAction::Submit => {
                let r = self.submit();
                proof {
                    editor::lemma_begun_place(self.input@, 0);
                    editor::lemma_begun_place(Seq::empty(), 0);
                    assert(self.input@.take(0) =~= Seq::<char>::empty());
                }
                r
            },
        }
    }

    fn cycle_permission_mode(&mut self) -> (r: Action)
        ensures
            (final(self)@, r@) == cycled(old(self)@),
    {
        let next = mode::next_mode(self.mode);
        self.mode = next;
        self.notice(
            text::cat3(
                "🔒 权限模式:",
                mode::mode_desc(next),
                " (Shift+Tab 循环切换)",
            ),
        );
        Action::SetMode(next)
    }

    fn on_plain_key(&mut self, key: KeyEvent) -> (r: Action)
        requires
            old(self)@.wf(),
        ensures
            (final(self)@, r@) == plain_key(old(self)@, key),
            final(self)@.wf(),
    {
        match key.code {
            KeyCode::Left => {
                proof {
                    editor::law_moves_keep_place(self.input@, self.cursor as nat);
                }
                self.cursor = editor::cursor_prev(self.input.as_str(), self.cursor);
                Action::Idle
            },
            KeyCode::Right => {
                proof {
                    editor::law_moves_keep_place(self.input@, self.cursor as nat);
                }
                self.cursor = editor::cursor_next(self.input.as_str(), self.cursor);
                Action::Idle
            },
            KeyCode::Delete => {
                proof {
                    if self.cursor < editor::byte_len(self.input@) {
                        editor::law_delete_keeps_place(self.input@, self.cursor as nat);
                    }
                }
                self.cursor = editor::delete_at(&mut self.input, self.cursor);
                Action::Idle
            },
            KeyCode::Char(_) => self.edit(key),
            KeyCode::Enter => self.edit(key),
            KeyCode::Backspace => self.edit(key),
            KeyCode::Esc => {
                if self.talk.busy {
                    self.notice(text::copy("⏹ 已请求中断…"));
                    return Action::Interrupt;
                }
                Action::Idle
            },
            KeyCode::BackTab => self.cycle_permission_mode(),
            KeyCode::Tab => {
                if key.shift {
                    return self.cycle_permission_mode();
                }
                Action::Idle
            },
            _ => {
                self.scroll.on_key(key.code);
                Action::Idle
            },
        }
    }

    fn on_permission_key(&mut self, k: KeyCode) -> (r: Action)
        ensures
            (final(self)@, r@) == permission_key(old(self)@, k),
    {
        if k == KeyCode::Char('y') || k == KeyCode::Char('Y') {
            self.talk.permission = None;
            return Action::Permit { allow: true, always: false };
        }
        if k == KeyCode::Char('a') || k == KeyCode::Char('A') {
            self.talk.permission = None;
            return Action::Permit { allow: true, always: true };
        }
        if k == KeyCode::Char('n') || k == KeyCode::Char('N') || k == KeyCode::Esc {
            self.talk.permission = None;
            return Action::Permit { allow: false, always: false };
        }
        Action::Idle
    }

    fn on_confirm_key(&mut self, k: KeyCode) -> (r: Action)
        ensures
            (final(self)@, r@) == confirm_key(old(self)@, k),
    {
        if k == KeyCode::Char('y') || k == KeyCode::Char('Y') {
            self.confirm = None;
            self.talk.items = messages::no_items();
            return Action::ClearContext;
        }
        if k == KeyCode::Char('n') || k == KeyCode::Char('N') || k == KeyCode::Esc {
            self.confirm = None;
            self.notice(text::copy("已取消清空。"));
        }
        Action::Idle
    }

    fn on_open_key(&mut self, key: KeyEvent, wizard: bool, sessions: bool) -> (r: Action)
        requires
            old(self)@.wf(),
        ensures
            (final(self)@, r@) == (if wizard {
                (old(self)@, ActionView::ToWizard)
            } else if sessions {
                (old(self)@, ActionView::ToSessions)
            } else {
                plain_key(old(self)@, key)
            }),
            final(self)@.wf(),
    {
        if wizard {
            return Action::ToWizard;
        }
        if sessions {
            return Action::ToSessions;
        }
        self.on_plain_key(key)
    }

    /// What a key does, with the configuration or the session manager open or not.
    /// Returns what has to be done outside.
    pub fn on_key(&mut self, key: KeyEvent, wizard: bool, sessions: bool) -> (r: Action)
        requires
            old(self)@.wf(),
            can_take(old(self)@, key),
        ensures
            (final(self)@, r@) == keyed(old(self)@, key, wizard, sessions),
            final(self)@.wf(),
    {
        if key.code == KeyCode::Char('c') && key.control {
            return Action::Exit;
        }
        if self.talk.permission.is_some() {
            return self.on_permission_key(key.code);
        }
        if self.confirm.is_some() {
            return self.on_confirm_key(key.code);
        }
        let ghost start = self@;
        let mut list: Option<Completion> = None;
        core::mem::swap(&mut list, &mut self.completion);
        match completion_menu::menu_key(list, key) {
            MenuStep::Used(c) => {
                self.completion = Some(c);
                Action::Idle
            },
            MenuStep::Take(c) => {
                proof {
                    completion_menu::law_taking_changes_the_word_only(
                        start.input,
                        start.cursor,
                        c@,
                    );
                }
                let mut at: usize = self.cursor;
                completion_menu::accept_completion(&mut self.input, &mut at, &c);
                self.cursor = at;
                Action::Idle
            },
            MenuStep::Pass(l) => {
                self.completion = l;
                proof {
                    assert(self@ == start);
                }
                self.on_open_key(key, wizard, sessions)
            },
        }
    }
}

// ---------------------------------------------------------- the start and the rest

/// The program when it starts: the banner and how it is used; the session that is
/// loaded, where one is; and what is to be done on a first run.
pub open spec fn started(
    mode: Mode,
    persona: Seq<char>,
    configured: bool,
    first_run: bool,
    resume: Option<Seq<char>>,
) -> AppView {
    let ready = Seq::<MsgView>::empty().push(MsgView::Logo).push(
        MsgView::Notice(
            "znaide 就绪。Enter 发送,Shift+Enter(或 Alt+Enter / Ctrl+J)换行;复制文字要按住 Shift 拖动选;退出用 /quit 或 /exit;/help 看全部命令。"@,
        ),
    );
    let loading = match resume {
        Some(id) => ready.push(MsgView::Notice("▶ 正在恢复会话 "@ + id + "…"@)),
        None => ready,
    };
    AppView {
        talk: TalkView {
            items: if first_run {
                loading.push(
                    MsgView::Notice(
                        "🎉 首次运行:先完成一次配置。选 AI 服务商,向导自动查询可用模型。"@,
                    ),
                ).push(
                    MsgView::Notice(
                        "配置完成并验证通过前对话不可用。需要时用 /config 重开向导。"@,
                    ),
                )
            } else {
                loading
            },
            busy: false,
            busy_kind: transcript::BusyKind::Work,
            permission: None,
            session_id: Seq::empty(),
            persona,
            stats: transcript::TokenStats {
                input: 0,
                output: 0,
                last_prompt: 0,
                round_est: 0,
            },
        },
        input: Seq::empty(),
        cursor: 0,
        completion: None,
        scroll: Scroll {
            back: 0,
            at_bottom: true,
            dragging: false,
            total: 0,
            range: 0,
            area: crate::layout::Rect { x: 0, y: 0, width: 0, height: 0 },
        },
        mode,
        confirm: None,
        configured,
        warned: false,
        quit: false,
    }
}

/// The program with a text put in that was pasted, unless a window is in front that
/// does not take it.
pub open spec fn pasted(s: AppView, t: Seq<char>, wizard: bool) -> AppView {
    if wizard || s.talk.permission is Some || s.confirm is Some {
        s
    } else {
        typed(s, editor::sanitized(editor::with_line_feeds(t)))
    }
}

/// Whether candidates may be shown.
pub open spec fn completable(s: AppView, wizard: bool) -> bool {
    !s.talk.busy && s.talk.permission is None && s.confirm is None && !wizard
}

/// What is to be done about the list of candidates, and the program meanwhile: a list
/// that no longer fits is closed.
pub open spec fn refreshed(s: AppView, wizard: bool) -> (AppView, RefreshView) {
    let r = completion_menu::refresh_of(s.input, s.cursor, completable(s, wizard), s.completion);
    (
        match r {
            RefreshView::Keep => s,
            _ => AppView { completion: None, ..s },
        },
        r,
    )
}

/// The share of the context that is used, in percent, where its size is known.
pub open spec fn context_share(s: AppView, window: nat) -> nat {
    s.talk.stats.last_prompt as nat * 100 / window
}

/// The program once the user was told, where the context is nearly full; that happens
/// once, until there is room again.
pub open spec fn context_checked(s: AppView, window: nat) -> AppView {
    if s.talk.busy || window == 0 || s.talk.stats.last_prompt == 0 {
        s
    } else if context_share(s, window) < 90 {
        AppView { warned: false, ..s }
    } else if s.warned {
        s
    } else {
        noticed(
            AppView { warned: true, ..s },
            "⚠ 上下文已用约 "@ + text::decimal(context_share(s, window))
                + "%,再聊可能丢最早的记录。可以 /compact 压缩,或 /quit 开新会话(--resume 能找回完整历史)。"@,
        )
    }
}

/// The program once the session manager was closed.
pub open spec fn manager_closed(s: AppView) -> AppView {
    noticed(s, "已关闭会话管理(随时 /resume 再开)。"@)
}

/// The program once a session was chosen in the session manager.
pub open spec fn session_chosen(s: AppView) -> AppView {
    noticed(s, "正在恢复历史会话…"@)
}

/// The program once the configuration was left.
pub open spec fn wizard_left(s: AppView) -> AppView {
    noticed(
        s,
        if s.configured {
            "已关闭配置向导,用 /config 可再打开。"@
        } else {
            "⚠ 配置还没完成,对话仍不可用。用 /config 继续配置。"@
        },
    )
}

/// The program once a connection was tried with success and its settings were written,
/// or not.
pub open spec fn connected(
    s: AppView,
    provider: Seq<char>,
    model: Seq<char>,
    saved: Result<(), Seq<char>>,
) -> AppView {
    noticed(
        AppView { configured: saved is Ok, ..s },
        match saved {
            Ok(_) => "✔ 配置完成并已生效: "@ + provider + " / "@ + model + "。可以开始用了。"@,
            Err(e) => "⚠ 配置已生效但没存上: "@ + e,
        },
    )
}

/// What writing the settings came to.
pub open spec fn saved_view(r: Result<(), String>) -> Result<(), Seq<char>> {
    match r {
        Ok(_) => Ok(()),
        Err(e) => Err(e@),
    }
}

impl App {
    /// The program when it starts; `resume` is the session that is loaded.
    pub fn start(
        mode: Mode,
        persona: String,
        configured: bool,
        first_run: bool,
        resume: Option<&str>,
    ) -> (r: App)
        ensures
            r@ == started(
                mode,
                persona@,
                configured,
                first_run,
                match resume {
                    Some(id) => Some(id@),
                    None => None,
                },
            ),
            r@.wf(),
            r@.list_fits(),
    {
        let mut items = messages::no_items();
        messages::push_item(&mut items, MsgItem::Logo);
        messages::push_notice(
            &mut items,
            text::copy(
                "znaide 就绪。Enter 发送,Shift+Enter(或 Alt+Enter / Ctrl+J)换行;复制文字要按住 Shift 拖动选;退出用 /quit 或 /exit;/help 看全部命令。",
            ),
        );
        if let Some(id) = resume {
            messages::push_notice(
                &mut items,
                text::cat3("▶ 正在恢复会话 ", id, "…"),
            );
        }
        if first_run {
            messages::push_notice(
                &mut items,
                text::copy(
                    "🎉 首次运行:先完成一次配置。选 AI 服务商,向导自动查询可用模型。",
                ),
            );
            messages::push_notice(
                &mut items,
                text::copy(
                    "配置完成并验证通过前对话不可用。需要时用 /config 重开向导。",
                ),
            );
        }
        proof {
            editor::lemma_begun_place(Seq::empty(), 0);
            assert(Seq::<char>::empty().take(0) =~= Seq::<char>::empty());
        }
        App {
            talk: Transcript::new(items, persona),
            input: String::new(),
            cursor: 0,
            completion: None,
            scroll: Scroll::new(),
            mode,
            confirm: None,
            configured,
            warned: false,
            quit: false,
        }
    }

    /// Takes a text that was pasted.
    pub fn paste(&mut self, t: &str, wizard: bool)
        requires
            old(self)@.wf(),
        ensures
            final(self)@ == pasted(old(self)@, t@, wizard),
            final(self)@.wf(),
    {
        if wizard || self.talk.permission.is_some() || self.confirm.is_some() {
            return;
        }
        let norm = editor::normalize_line_ends(t);
        let clean = editor::sanitize_typed_text(norm.as_str());
        self.put_in(clean.as_str());
    }

    /// What is to be done about the list of candidates.
    pub fn refresh(&mut self, wizard: bool) -> (r: Refresh)
        requires
            old(self)@.wf(),
        ensures
            (final(self)@, r@) == refreshed(old(self)@, wizard),
            final(self)@.wf(),
            final(self)@.list_fits(),
    {
        let enabled = !self.talk.busy && self.talk.permission.is_none() && self.confirm.is_none()
            && !wizard;
        proof {
            lemma_detected_fits(self.input@, self.cursor as nat);
        }
        let r = completion_menu::refresh_completion(
            self.input.as_str(),
            self.cursor,
            enabled,
            &self.completion,
        );
        match &r {
            Refresh::Keep => {},
            _ => {
                self.completion = None;
            },
        }
        r
    }

    /// Opens the list with the candidates that were found.
    pub fn open_list(
        &mut self,
        kind: CompletionKind,
        word_start: usize,
        typed: String,
        items: Vec<CompletionItem>,
    )
        ensures
            final(self)@ == (AppView {
                completion: completion_menu::opened(
                    kind,
                    word_start as nat,
                    typed@,
                    completion::item_views(items@),
                ),
                ..old(self)@
            }),
    {
        self.completion = completion_menu::open_completion(kind, word_start, typed, items);
    }

    /// Tells the user, once, where the context of the given size is nearly full.
    pub fn check_context(&mut self, window: usize)
        ensures
            final(self)@ == context_checked(old(self)@, window as nat),
    {
        let used: u64 = self.talk.stats.last_prompt;
        if self.talk.busy || window == 0 || used == 0 {
            return;
        }
        let share: u128 = used as u128 * 100 / window as u128;
        if share < 90 {
            self.warned = false;
            return;
        }
        if self.warned {
            return;
        }
        self.warned = true;
        self.notice(
            text::cat3(
                "⚠ 上下文已用约 ",
                text::dec128(share).as_str(),
                "%,再聊可能丢最早的记录。可以 /compact 压缩,或 /quit 开新会话(--resume 能找回完整历史)。",
            ),
        );
    }

    /// Says that the session manager was closed.
    pub fn close_sessions(&mut self)
        ensures
            final(self)@ == manager_closed(old(self)@),
    {
        self.notice(text::copy("已关闭会话管理(随时 /resume 再开)。"));
    }

    /// Says that the session chosen in the session manager is being loaded.
    pub fn choose_session(&mut self)
        ensures
            final(self)@ == session_chosen(old(self)@),
    {
        self.notice(text::copy("正在恢复历史会话…"));
    }

    /// Says that the configuration was left.
    pub fn leave_wizard(&mut self)
        ensures
            final(self)@ == wizard_left(old(self)@),
    {
        let t = if self.configured {
            "已关闭配置向导,用 /config 可再打开。"
        } else {
            "⚠ 配置还没完成,对话仍不可用。用 /config 继续配置。"
        };
        self.notice(text::copy(t));
    }

    /// Takes a connection that was tried with success; `saved` is whether its settings
    /// were written.
    pub fn connect(&mut self, provider: &str, model: &str, saved: Result<(), String>)
        ensures
            final(self)@ == connected(old(self)@, provider@, model@, saved_view(saved)),
    {
        match saved {
            Ok(_) => {
                self.configured = true;
                self.notice(
                    text::cat5(
                        "✔ 配置完成并已生效: ",
                        provider,
                        " / ",
                        model,
                        "。可以开始用了。",
                    ),
                );
            },
            Err(e) => {
                self.configured = false;
                self.notice(text::cat2("⚠ 配置已生效但没存上: ", e.as_str()));
            },
        }
    }

    /// What an event of the session does, at the given time in milliseconds.
    pub fn on_event(&mut self, e: transcript::SessionEvent, now: u64)
        requires
            transcript::can_take(old(self)@.talk, e@),
        ensures
            final(self)@ == (AppView {
                talk: transcript::after(old(self)@.talk, e@, now),
                ..old(self)@
            }),
    {
        self.talk.handle_session_event(e, now);
    }
}

proof fn lemma_detected_fits(s: Seq<char>, b: nat)
    requires
        editor::is_place(s, b),
    ensures
        match completion::detected(s, b) {
            Some((_, start, _)) => {
                &&& editor::is_place(s, editor::place(s, start))
                &&& editor::place(s, start) <= b
            },
            None => true,
        },
{
    completion::lemma_detected(s, b);
    editor::lemma_begun_bound(s, b);
    if let Some((_, start, _)) = completion::detected(s, b) {
        editor::lemma_begun_place(s, start);
        editor::lemma_places_grow(s, start, editor::begun(s, b));
    }
}

// ------------------------------------------------------------------------ laws

/// While a permission is asked for, a key changes nothing else, and does nothing but
/// give or deny it, or end the program.
pub proof fn law_permission_comes_first(s: AppView, key: KeyEvent, wizard: bool, sessions: bool)
    requires
        s.talk.permission is Some,
    ensures
        ({
            let (t, a) = keyed(s, key, wizard, sessions);
            &&& t == (AppView {
                talk: TalkView { permission: t.talk.permission, ..s.talk },
                ..s
            })
            &&& a is Permit || a is Idle || a is Exit
            &&& a is Permit <==> t.talk.permission is None
        }),
{
}

/// The session is cleared by nothing but `y` at the question for that; the question is
/// asked by nothing but the command.
pub proof fn law_clearing_takes_two_steps(
    s: AppView,
    key: KeyEvent,
    wizard: bool,
    sessions: bool,
)
    ensures
        ({
            let (t, a) = keyed(s, key, wizard, sessions);
            &&& a is ClearContext ==> s.confirm is Some && (key.code == KeyCode::Char('y')
                || key.code == KeyCode::Char('Y'))
            &&& s.confirm is None && t.confirm is Some ==> command::command_of(
                scan::trimmed(s.input),
            ) is Clear
        }),
{
}

/// Without a model to talk to, no key begins a task.
pub proof fn law_no_task_without_model(s: AppView, key: KeyEvent, wizard: bool, sessions: bool)
    requires
        !s.configured,
    ensures
        ({
            let a = keyed(s, key, wizard, sessions).1;
            !(a is Prompt) && !(a is RunSkill) && !(a is Compact)
        }),
{
}

/// Nor does an answer to a command.
pub proof fn law_no_answer_without_model(s: AppView, a: AnswerView)
    requires
        !s.configured,
    ensures
        ({
            let r = taken(s, a).1;
            !(r is Prompt) && !(r is RunSkill) && !(r is Compact)
        }),
{
}

/// While the session is busy, no key sends it a new task; what was typed stays.
pub proof fn law_busy_session_gets_no_task(
    s: AppView,
    key: KeyEvent,
    wizard: bool,
    sessions: bool,
)
    requires
        s.talk.busy,
    ensures
        !(keyed(s, key, wizard, sessions).1 is Prompt),
{
}

/// What is sent is what was typed, without the white space around it; it is shown, and
/// nothing is left to be sent again.
pub proof fn law_what_is_sent_is_shown(s: AppView, key: KeyEvent, wizard: bool, sessions: bool)
    requires
        keyed(s, key, wizard, sessions).1 is Prompt,
    ensures
        ({
            let (t, a) = keyed(s, key, wizard, sessions);
            &&& a->Prompt_0 == scan::trimmed(s.input)
            &&& t.talk.items == s.talk.items.push(MsgView::User(a->Prompt_0))
            &&& t.talk.busy
            &&& t.input.len() == 0
        }),
{
}

/// The user is told once that the context is nearly full, and again only after there
/// was room.
pub proof fn law_warning_is_given_once(s: AppView, window: nat)
    ensures
        context_checked(context_checked(s, window), window) == context_checked(s, window),
{
}

/// Taking a candidate sends nothing: that takes another key.
pub proof fn law_taking_sends_nothing(s: AppView, key: KeyEvent, wizard: bool, sessions: bool)
    requires
        s.talk.permission is None,
        s.confirm is None,
        !(key.code == KeyCode::Char('c') && key.control),
        !(completion_menu::menu_step(s.completion, key) is Pass),
    ensures
        ({
            let (t, a) = keyed(s, key, wizard, sessions);
            a is Idle && t.talk == s.talk
        }),
{
}

} // verus!
