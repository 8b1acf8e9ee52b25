//! What the keys do to the text that is typed, to the questions and to the view.

use crate::chat;
use crate::chat::{ActionView, AppView};
use crate::command;
use crate::command::{ActView, AnswerView};
use crate::editor;
use crate::input::{KeyCode, KeyEvent};
use crate::layout::Rect;
use crate::messages::MsgView;
use crate::mode::Mode;
use crate::scan;
use crate::scroll;
use crate::scroll::{MouseEvent, MouseKind, Scroll};
use crate::text;
use crate::text_laws;
use crate::transcript::TalkView;
use vstd::prelude::*;

verus! {

/// The text and the messages are in front: nothing is asked, and no list is open.
pub open spec fn in_front(s: AppView) -> bool {
    &&& s.talk.permission is None
    &&& s.confirm is None
    &&& s.completion is None
}

/// The program after a key, with nothing else in front.
pub open spec fn pressed(s: AppView, k: KeyEvent) -> (AppView, ActionView) {
    chat::keyed(s, k, false, false)
}

/// The program with the cursor between two texts.
pub open spec fn between(s: AppView, x: Seq<char>, y: Seq<char>) -> AppView {
    AppView { input: x + y, cursor: editor::byte_len(x), ..s }
}

proof fn lemma_between(x: Seq<char>, y: Seq<char>)
    ensures
        editor::begun(x + y, editor::byte_len(x)) == x.len(),
        (x + y).take(x.len() as int) == x,
        (x + y).skip(x.len() as int) == y,
{
    let s = x + y;
    assert(s.take(x.len() as int) =~= x);
    assert(s.skip(x.len() as int) =~= y);
    editor::lemma_begun_place(s, x.len() as int);
}

// ------------------------------------------------------------------------ typing

/// A character that is typed stands at the cursor, and the cursor behind it; so does a
/// line feed, by each of the keys for one.
pub proof fn law_characters_are_put_at_the_cursor(
    s: AppView,
    x: Seq<char>,
    y: Seq<char>,
    c: char,
    k: KeyEvent,
)
    requires
        in_front(s),
        s == between(s, x, y),
    ensures
        k.code == KeyCode::Char(c) && !k.control && !text::is_control(c) ==> pressed(s, k) == (
            between(s, x.push(c), y),
            ActionView::Idle,
        ),
        k.code == KeyCode::Enter && (k.shift || k.alt) ==> pressed(s, k) == (
            between(s, x.push('\n'), y),
            ActionView::Idle,
        ),
        k.code == KeyCode::Char('j') && k.control ==> pressed(s, k) == (
            between(s, x.push('\n'), y),
            ActionView::Idle,
        ),
{
    lemma_between(x, y);
    assert(x + seq![c] + y =~= x.push(c) + y);
    assert(x + seq!['\n'] + y =~= x.push('\n') + y);
    editor::lemma_byte_len_add(x, seq![c]);
    editor::lemma_byte_len_add(x, seq!['\n']);
    assert(x + seq![c] =~= x.push(c));
    assert(x + seq!['\n'] =~= x.push('\n'));
}

/// One key takes back the character in front of the cursor, another the one behind it,
/// and the arrows move the cursor over one; at the ends of the text nothing changes.
pub proof fn law_characters_are_taken_back(
    s: AppView,
    x: Seq<char>,
    c: char,
    y: Seq<char>,
    k: KeyEvent,
)
    requires
        in_front(s),
    ensures
        s == between(s, x.push(c), y) && k.code == KeyCode::Backspace ==> pressed(s, k) == (
            between(s, x, y),
            ActionView::Idle,
        ),
        s == between(s, x, seq![c] + y) && k.code == KeyCode::Delete ==> pressed(s, k) == (
            between(s, x, y),
            ActionView::Idle,
        ),
        s == between(s, x.push(c), y) && k.code == KeyCode::Left ==> pressed(s, k) == (
            between(s, x, seq![c] + y),
            ActionView::Idle,
        ),
        s == between(s, x, seq![c] + y) && k.code == KeyCode::Right ==> pressed(s, k) == (
            between(s, x.push(c), y),
            ActionView::Idle,
        ),
        s == between(s, Seq::empty(), y) && (k.code == KeyCode::Backspace || k.code
            == KeyCode::Left) ==> pressed(s, k) == (s, ActionView::Idle),
        s == between(s, x, Seq::empty()) && (k.code == KeyCode::Delete || k.code
            == KeyCode::Right) ==> pressed(s, k) == (s, ActionView::Idle),
{
    let e = Seq::<char>::empty();
    if s == between(s, x.push(c), y) {
        lemma_back(s, x, c, y, k);
    }
    if s == between(s, x, seq![c] + y) {
        lemma_forth(s, x, c, y, k);
    }
    if s == between(s, e, y) {
        lemma_between(e, y);
        assert(editor::byte_len(e) == 0);
    }
    if s == between(s, x, e) {
        lemma_between(x, e);
        assert(x + e =~= x);
    }
}

proof fn lemma_back(s: AppView, x: Seq<char>, c: char, y: Seq<char>, k: KeyEvent)
    requires
        in_front(s),
        s == between(s, x.push(c), y),
    ensures
        k.code == KeyCode::Backspace ==> pressed(s, k) == (between(s, x, y), ActionView::Idle),
        k.code == KeyCode::Left ==> pressed(s, k) == (
            between(s, x, seq![c] + y),
            ActionView::Idle,
        ),
{
    lemma_between(x.push(c), y);
    let t = x.push(c) + y;
    assert(t.take(x.len() as int) =~= x);
    assert(x.push(c).drop_last() =~= x);
    assert(editor::byte_len(x.push(c)) > 0);
    assert(x + y =~= t.take(x.len() as int) + t.skip(x.len() as int + 1));
    assert(x + (seq![c] + y) =~= t);
}

proof fn lemma_forth(s: AppView, x: Seq<char>, c: char, y: Seq<char>, k: KeyEvent)
    requires
        in_front(s),
        s == between(s, x, seq![c] + y),
    ensures
        k.code == KeyCode::Delete ==> pressed(s, k) == (between(s, x, y), ActionView::Idle),
        k.code == KeyCode::Right ==> pressed(s, k) == (
            between(s, x.push(c), y),
            ActionView::Idle,
        ),
{
    let w = seq![c] + y;
    lemma_between(x, w);
    let t = x + w;
    editor::lemma_byte_len_add(x, w);
    editor::lemma_byte_len_add(seq![c], y);
    assert(seq![c].drop_last() =~= Seq::<char>::empty());
    assert(editor::byte_len(seq![c]) > 0);
    assert(t.take(x.len() as int + 1) =~= x.push(c));
    assert(x + y =~= t.take(x.len() as int) + t.skip(x.len() as int + 1));
    assert(x.push(c) + y =~= t);
}

/// What is pasted stands at the cursor, and the cursor behind it: whole where it holds
/// no control characters but line feeds and tabs.
pub proof fn law_pasted_text_is_put_at_the_cursor(
    s: AppView,
    x: Seq<char>,
    y: Seq<char>,
    t: Seq<char>,
)
    requires
        s.talk.permission is None,
        s.confirm is None,
        s == between(s, x, y),
        forall|i: int| 0 <= i < t.len() ==> !text::is_control(#[trigger] t[i]) || t[i] == '\n' || t[i]
            == '\t',
    ensures
        chat::pasted(s, t, false) == between(s, x + t, y),
        chat::pasted(s, t, true) == s,
{
    lemma_between(x, y);
    lemma_no_returns(t);
    editor::law_sanitize_keeps_clean_text(t);
    editor::lemma_byte_len_add(x, t);
}

proof fn lemma_no_returns(t: Seq<char>)
    requires
        forall|i: int| 0 <= i < t.len() ==> !text::is_control(#[trigger] t[i]) || t[i] == '\n' || t[i]
            == '\t',
    ensures
        editor::with_line_feeds(t) == t,
    decreases t.len(),
{
    if t.len() > 0 {
        let u = t.drop_last();
        assert forall|i: int| 0 <= i < u.len() implies !text::is_control(#[trigger] u[i]) || u[i]
            == '\n' || u[i] == '\t' by {
            assert(u[i] == t[i]);
        }
        lemma_no_returns(u);
        assert(t[t.len() - 1] != '\r');
        if t.len() > 1 {
            assert(t[t.len() - 2] != '\r');
        }
        assert(u.push(t.last()) =~= t);
    } else {
        assert(t =~= Seq::<char>::empty());
    }
}

// ----------------------------------------------------------------------- sending

/// The key that sends, alone.
pub open spec fn sends(k: KeyEvent) -> bool {
    k.code == KeyCode::Enter && !k.shift && !k.alt
}

/// A text that is no command is sent as a task, without the white space around it: it
/// is shown as said by the user, nothing is left of it to be typed, the session is at
/// work, and the view follows its last line. A busy session is not sent one, and
/// without a model the user is told so.
pub proof fn law_texts_are_sent(
    s: AppView,
    k: KeyEvent,
    a: Seq<char>,
    t: Seq<char>,
    b: Seq<char>,
)
    requires
        in_front(s),
        sends(k),
        text_laws::blank(a),
        text_laws::tight(t),
        text_laws::blank(b),
        t.len() > 0,
        t[0] != '/',
        s.input == a + t + b,
    ensures
        !s.talk.busy && s.configured ==> pressed(s, k) == (
            AppView {
                talk: TalkView { busy: true, items: s.talk.items.push(MsgView::User(t)), ..s.talk },
                scroll: Scroll { at_bottom: true, ..s.scroll },
                input: Seq::empty(),
                cursor: 0,
                ..s
            },
            ActionView::Prompt(t),
        ),
        s.talk.busy ==> pressed(s, k) == (s, ActionView::Idle),
        !s.talk.busy && !s.configured ==> {
            let (r, act) = pressed(s, k);
            &&& act == ActionView::Idle
            &&& r.talk.items.len() == s.talk.items.len() + 1 && r.talk.items.last() is Notice
            &&& r.talk.items.drop_last() == s.talk.items
            &&& r.input.len() == 0 && !r.configured && r.talk.busy == s.talk.busy
        },
{
    text_laws::law_trimming_takes_white_space(a, t, b);
    reveal_strlit("/config");
    assert("/config"@[0] == '/');
    if !s.talk.busy && !s.configured {
        let r = pressed(s, k).0;
        assert(r.talk.items.drop_last() =~= s.talk.items);
    }
}

/// A text that begins with a slash is a command: its answer is carried out, and nothing
/// is left of it to be typed. One word opens the configuration.
pub proof fn law_commands_are_sent(s: AppView, k: KeyEvent, a: Seq<char>, t: Seq<char>, b: Seq<char>)
    requires
        in_front(s),
        sends(k),
        text_laws::blank(a),
        text_laws::tight(t),
        text_laws::blank(b),
        t.len() > 0,
        t[0] == '/',
        s.input == a + t + b,
    ensures
        t == "/config"@ ==> pressed(s, k).1 == ActionView::OpenWizard,
        t != "/config"@ ==> {
            let r = chat::taken(s, command::answer_of(command::command_of(t)));
            pressed(s, k) == (AppView { input: Seq::empty(), cursor: 0, ..r.0 }, r.1)
        },
        pressed(s, k).0.input.len() == 0,
{
    text_laws::law_trimming_takes_white_space(a, t, b);
}

/// White space alone is not sent.
pub proof fn law_nothing_is_not_sent(s: AppView, k: KeyEvent)
    requires
        in_front(s),
        sends(k),
        text_laws::blank(s.input),
    ensures
        pressed(s, k) == (AppView { cursor: 0, ..s }, ActionView::Idle),
{
    let e = Seq::<char>::empty();
    text_laws::law_trimming_takes_white_space(s.input, e, e);
    assert(s.input + e + e =~= s.input);
}

/// What an answer to a command does: its items are shown behind the others, and what it
/// asks for is done; a task, a skill and a compaction only where there is a model.
pub proof fn law_answers_are_carried_out(s: AppView, a: AnswerView)
    ensures
        ({
            let (t, act) = chat::taken(s, a);
            let shown = AppView {
                talk: TalkView { items: s.talk.items + a.items, ..s.talk },
                ..s
            };
            let n = (s.talk.items + a.items).len() as int;
            match a.act {
                ActView::Idle => t == shown && act == ActionView::Idle,
                ActView::OpenSessions => t == shown && act == ActionView::OpenSessions,
                ActView::Load(p) => t == shown && act == ActionView::Load(p),
                ActView::Delete(p) => t == shown && act == ActionView::Delete(p),
                ActView::SetPersona(p) => t == shown && act == ActionView::SetPersona(p),
                ActView::CheckUpdate => t == shown && act == ActionView::CheckUpdate,
                ActView::Ask(c) => t == shown && act == ActionView::Ask(c),
                ActView::Quit => t == (AppView { quit: true, ..shown }) && act
                    == ActionView::Idle,
                ActView::ConfirmClear => t == (AppView { confirm: t.confirm, ..shown })
                    && t.confirm is Some && act == ActionView::Idle,
                ActView::Task(p) => s.configured ==> {
                    &&& act == ActionView::Prompt(p)
                    &&& t.talk.items == (s.talk.items + a.items).push(MsgView::User(p))
                    &&& t.talk.busy
                },
                ActView::RunSkill { name, args } => s.configured ==> {
                    &&& act == (ActionView::RunSkill { name, args })
                    &&& t.talk.items == s.talk.items + a.items
                    &&& t.talk.busy
                },
                ActView::Compact => s.configured ==> t == shown && act == ActionView::Compact,
            }
        }),
{
}

// --------------------------------------------------------------------- questions

/// A permission is given once by `y`, for the session by `a`, and denied by `n` and by
/// the key that leaves, in either case of the letters; nothing else changes.
pub proof fn law_permissions_are_answered(
    s: AppView,
    k: KeyEvent,
    wizard: bool,
    sessions: bool,
)
    requires
        s.talk.permission is Some,
        !k.control,
    ensures
        ({
            let gone = AppView { talk: TalkView { permission: None, ..s.talk }, ..s };
            let r = chat::keyed(s, k, wizard, sessions);
            &&& k.code == KeyCode::Char('y') || k.code == KeyCode::Char('Y') ==> r == (
                gone,
                ActionView::Permit { allow: true, always: false },
            )
            &&& k.code == KeyCode::Char('a') || k.code == KeyCode::Char('A') ==> r == (
                gone,
                ActionView::Permit { allow: true, always: true },
            )
            &&& k.code == KeyCode::Char('n') || k.code == KeyCode::Char('N') || k.code
                == KeyCode::Esc ==> r == (gone, ActionView::Permit { allow: false, always: false })
            &&& k.code == KeyCode::Enter || k.code == KeyCode::Tab || k.code
                == KeyCode::Backspace || k.code == KeyCode::Char('x') ==> r == (
                s,
                ActionView::Idle,
            )
        }),
{
}

/// The question whether to clear is confirmed by `y`, which drops all items, and
/// refused by `n` and by the key that leaves, which drops none.
pub proof fn law_clearing_is_answered(s: AppView, k: KeyEvent, wizard: bool, sessions: bool)
    requires
        s.talk.permission is None,
        s.confirm is Some,
        !k.control,
    ensures
        ({
            let r = chat::keyed(s, k, wizard, sessions);
            &&& k.code == KeyCode::Char('y') || k.code == KeyCode::Char('Y') ==> r == (
                AppView {
                    confirm: None,
                    talk: TalkView { items: Seq::empty(), ..s.talk },
                    ..s
                },
                ActionView::ClearContext,
            )
            &&& k.code == KeyCode::Char('n') || k.code == KeyCode::Char('N') || k.code
                == KeyCode::Esc ==> {
                &&& r.1 == ActionView::Idle
                &&& r.0 == (AppView {
                    confirm: None,
                    talk: TalkView { items: r.0.talk.items, ..s.talk },
                    ..s
                })
                &&& r.0.talk.items.len() == s.talk.items.len() + 1
                &&& r.0.talk.items.drop_last() == s.talk.items
            }
            &&& k.code == KeyCode::Enter || k.code == KeyCode::Tab || k.code == KeyCode::Backspace
                ==> r == (s, ActionView::Idle)
        }),
{
    let r = chat::keyed(s, k, wizard, sessions);
    if k.code == KeyCode::Char('n') || k.code == KeyCode::Char('N') || k.code == KeyCode::Esc {
        assert(r.0.talk.items.drop_last() =~= s.talk.items);
    }
}

/// `Ctrl+C` ends the program, whatever is in front.
pub proof fn law_program_can_be_left(s: AppView, k: KeyEvent, wizard: bool, sessions: bool)
    requires
        k.code == KeyCode::Char('c'),
        k.control,
    ensures
        chat::keyed(s, k, wizard, sessions) == (s, ActionView::Exit),
{
}

/// The key that leaves interrupts a busy session, and does nothing else.
pub proof fn law_work_is_interrupted(s: AppView, k: KeyEvent)
    requires
        in_front(s),
        k.code == KeyCode::Esc,
    ensures
        s.talk.busy ==> {
            let r = pressed(s, k);
            &&& r.1 == ActionView::Interrupt
            &&& r.0 == (AppView { talk: TalkView { items: r.0.talk.items, ..s.talk }, ..s })
            &&& r.0.talk.items.len() == s.talk.items.len() + 1
        },
        !s.talk.busy ==> pressed(s, k) == (s, ActionView::Idle),
{
}

/// The key for the mode leads from asking to accepting edits, from there to asking
/// nothing but for dangerous commands, from there to asking nothing, and from there back;
/// the user is told, and the session too.
pub proof fn law_modes_are_changed(s: AppView, k: KeyEvent)
    requires
        in_front(s),
        k.code == KeyCode::BackTab || (k.code == KeyCode::Tab && k.shift),
    ensures
        ({
            let m = match s.mode {
                Mode::Ask => Mode::AcceptEdits,
                Mode::AcceptEdits => Mode::BypassPermissions,
                Mode::BypassPermissions => Mode::Yolo,
                Mode::Yolo => Mode::Ask,
            };
            let r = pressed(s, k);
            &&& r.1 == ActionView::SetMode(m)
            &&& r.0.mode == m
            &&& r.0.talk.items.len() == s.talk.items.len() + 1 && r.0.talk.items.last() is Notice
            &&& r.0 == (AppView {
                mode: m,
                talk: TalkView { items: r.0.talk.items, ..s.talk },
                ..s
            })
        }),
{
}

/// With the configuration or the session manager in front, a key goes there and
/// changes nothing here.
pub proof fn law_keys_go_to_the_front(s: AppView, k: KeyEvent)
    requires
        in_front(s),
        !(k.code == KeyCode::Char('c') && k.control),
    ensures
        chat::keyed(s, k, true, false) == (s, ActionView::ToWizard),
        chat::keyed(s, k, true, true) == (s, ActionView::ToWizard),
        chat::keyed(s, k, false, true) == (s, ActionView::ToSessions),
{
}

// ------------------------------------------------------------------- the context

/// The user is told of the share from ninety percent on, unless that was done before;
/// below it they will be told again.
pub proof fn law_full_context_is_told(s: AppView, window: nat)
    requires
        !s.talk.busy,
        window > 0,
        s.talk.stats.last_prompt > 0,
    ensures
        ({
            let r = chat::context_checked(s, window);
            let used = s.talk.stats.last_prompt as nat * 100;
            &&& used >= 90 * window && !s.warned ==> r.warned && r.talk.items.len()
                == s.talk.items.len() + 1 && r.talk.items.last() is Notice && scan::occurs(
                r.talk.items.last()->Notice_0,
                text::decimal(used / window),
            )
            &&& used >= 90 * window && s.warned ==> r == s
            &&& used < 90 * window ==> r == (AppView { warned: false, ..s })
        }),
{
    let used = s.talk.stats.last_prompt as nat * 100;
    let q = used / window;
    vstd::arithmetic::div_mod::lemma_fundamental_div_mod(used as int, window as int);
    vstd::arithmetic::div_mod::lemma_mod_bound(used as int, window as int);
    if q < 90 {
        assert(window * q <= 89 * window) by (nonlinear_arith)
            requires
                q < 90,
        ;
    } else {
        assert(window * q >= 90 * window) by (nonlinear_arith)
            requires
                q >= 90,
        ;
    }
    text_laws::law_parts_occur(
        "⚠ 上下文已用约 "@,
        text::decimal(q),
        "%,再聊可能丢最早的记录。可以 /compact 压缩,或 /quit 开新会话(--resume 能找回完整历史)。"@,
    );
}

/// A connection that was tried and written makes the program ready to talk; one that
/// could not be written does not, and the reason is told.
pub proof fn law_connections_are_told(s: AppView, p: Seq<char>, m: Seq<char>, e: Seq<char>)
    ensures
        ({
            let r = chat::connected(s, p, m, Ok(()));
            let q = chat::connected(s, p, m, Err(e));
            &&& r.configured && !q.configured
            &&& r.talk.items.len() == s.talk.items.len() + 1 && r.talk.items.last() is Notice
            &&& q.talk.items.len() == s.talk.items.len() + 1 && q.talk.items.last() is Notice
            &&& scan::occurs(r.talk.items.last()->Notice_0, p + " / "@ + m)
            &&& scan::occurs(q.talk.items.last()->Notice_0, e)
        }),
{
    let z = Seq::<char>::empty();
    let a = "✔ 配置完成并已生效: "@;
    let b = "。可以开始用了。"@;
    text_laws::law_parts_occur(a, p + " / "@ + m, b);
    assert(a + p + " / "@ + m + b =~= a + (p + " / "@ + m) + b);
    text_laws::law_parts_occur("⚠ 配置已生效但没存上: "@, e, z);
    assert("⚠ 配置已生效但没存上: "@ + e + z =~= "⚠ 配置已生效但没存上: "@ + e);
}

// ---------------------------------------------------------------------- the view

/// The arrows and the keys for pages scroll by three and by fifteen lines, the keys for the
/// ends to the first line and to the last; the view follows new lines only once it
/// stands on the last one.
pub proof fn law_keys_scroll(s: Scroll)
    requires
        s.back + 15 <= usize::MAX,
    ensures
        scroll::key_scrolled(s, KeyCode::Up) == (Scroll {
            back: (s.back + 3) as usize,
            at_bottom: false,
            ..s
        }),
        scroll::key_scrolled(s, KeyCode::PageUp) == (Scroll {
            back: (s.back + 15) as usize,
            at_bottom: false,
            ..s
        }),
        scroll::key_scrolled(s, KeyCode::Down) == (Scroll {
            back: if s.back > 3 {
                (s.back - 3) as usize
            } else {
                0
            },
            at_bottom: s.at_bottom || s.back <= 3,
            ..s
        }),
        scroll::key_scrolled(s, KeyCode::PageDown) == (Scroll {
            back: if s.back > 15 {
                (s.back - 15) as usize
            } else {
                0
            },
            at_bottom: s.at_bottom || s.back <= 15,
            ..s
        }),
        scroll::key_scrolled(s, KeyCode::Home) == (Scroll {
            back: usize::MAX,
            at_bottom: false,
            ..s
        }),
        scroll::key_scrolled(s, KeyCode::End) == (Scroll { back: 0, at_bottom: true, ..s }),
{
}

/// What was scrolled up is scrolled down again.
pub proof fn law_scrolling_goes_both_ways(s: Scroll)
    requires
        !s.at_bottom,
        0 < s.back <= 1000000,
    ensures
        scroll::key_scrolled(scroll::key_scrolled(s, KeyCode::Up), KeyCode::Down) == s,
        scroll::key_scrolled(scroll::key_scrolled(s, KeyCode::PageUp), KeyCode::PageDown) == s,
{
}

/// The wheel scrolls as the arrows do, where there is something to scroll and the mouse
/// is inside the frame; elsewhere the mouse does nothing.
pub proof fn law_wheel_scrolls(s: Scroll, m: MouseEvent)
    requires
        s.range > 0,
        s.area.width > 0,
        s.area.height > 2,
        s.area.y + s.area.height <= 65535,
        s.area.x + s.area.width <= 65535,
    ensures
        ({
            let inside = m.column < s.area.x + s.area.width && s.area.y < m.row < s.area.y
                + s.area.height - 1;
            &&& inside && m.kind == MouseKind::ScrollUp ==> scroll::mouse_scrolled(s, m)
                == scroll::key_scrolled(s, KeyCode::Up)
            &&& inside && m.kind == MouseKind::ScrollDown ==> scroll::mouse_scrolled(s, m)
                == scroll::key_scrolled(s, KeyCode::Down)
            &&& inside && m.kind == MouseKind::Up ==> scroll::mouse_scrolled(s, m) == (Scroll {
                dragging: false,
                ..s
            })
            &&& inside && m.kind == MouseKind::LeftDown && m.column == s.area.x + s.area.width
                - 1 ==> scroll::mouse_scrolled(s, m) == scroll::jumped(
                Scroll { dragging: true, ..s },
                m.row,
            )
            &&& inside && m.kind == MouseKind::LeftDrag && s.dragging ==> scroll::mouse_scrolled(
                s,
                m,
            ) == scroll::jumped(s, m.row)
            &&& !inside ==> scroll::mouse_scrolled(s, m) == s
        }),
{
}

/// A view that was scrolled up by so many lines ends so many lines before the last one,
/// and one that was scrolled past the first line begins there.
pub proof fn law_view_is_where_it_was_scrolled(
    s: Scroll,
    total: usize,
    view_h: usize,
    area: Rect,
)
    requires
        !s.at_bottom,
        s.total == total,
        view_h < total,
    ensures
        ({
            let r = scroll::framed(s, total, view_h, area);
            let from = scroll::frame_start(r.back as nat, total as nat, view_h as nat);
            &&& s.back <= total - view_h ==> from == total - view_h - s.back
            &&& s.back > total - view_h ==> from == 0
            &&& r.range == total - view_h && r.total == total && r.area == area
        }),
{
}

// ------------------------------------------------------------------- pasted text

proof fn lemma_scan_goes_on(s: Seq<char>, b: Seq<char>)
    requires
        editor::typed_scan(s).at == editor::Typed::Text,
        forall|i: int| 0 <= i < b.len() ==> !text::is_control(#[trigger] b[i]) || b[i] == '\n' || b[i]
            == '\t',
    ensures
        editor::typed_scan(s + b).kept == editor::typed_scan(s).kept + b,
        editor::typed_scan(s + b).at == editor::Typed::Text,
    decreases b.len(),
{
    if b.len() == 0 {
        assert(s + b =~= s);
        assert(editor::typed_scan(s).kept + b =~= editor::typed_scan(s).kept);
    } else {
        let c = b.drop_last();
        assert forall|i: int| 0 <= i < c.len() implies !text::is_control(#[trigger] c[i]) || c[i]
            == '\n' || c[i] == '\t' by {
            assert(c[i] == b[i]);
        }
        lemma_scan_goes_on(s, c);
        assert((s + b).drop_last() =~= s + c);
        assert((s + b).last() == b[b.len() - 1]);
        assert(editor::typed_scan(s).kept + c.push(b.last()) =~= (editor::typed_scan(s).kept
            + c).push(b.last()));
        assert(c.push(b.last()) =~= b);
    }
}

proof fn lemma_scan_skips(s: Seq<char>, m: Seq<char>)
    requires
        editor::typed_scan(s).at == editor::Typed::Control,
        forall|i: int| 0 <= i < m.len() ==> '0' <= #[trigger] m[i] <= '9' || m[i] == ';',
    ensures
        editor::typed_scan(s + m) == editor::typed_scan(s),
    decreases m.len(),
{
    if m.len() == 0 {
        assert(s + m =~= s);
    } else {
        let c = m.drop_last();
        assert forall|i: int| 0 <= i < c.len() implies '0' <= #[trigger] c[i] <= '9' || c[i] == ';' by {
            assert(c[i] == m[i]);
        }
        lemma_scan_skips(s, c);
        assert((s + m).drop_last() =~= s + c);
        assert((s + m).last() == m[m.len() - 1]);
    }
}

/// A control sequence in a text that is pasted is dropped, and what stands before and
/// behind it stays.
pub proof fn law_pasted_sequences_are_dropped(a: Seq<char>, m: Seq<char>, f: char, b: Seq<char>)
    requires
        forall|i: int| 0 <= i < a.len() ==> !text::is_control(#[trigger] a[i]) || a[i] == '\n' || a[i]
            == '\t',
        forall|i: int| 0 <= i < b.len() ==> !text::is_control(#[trigger] b[i]) || b[i] == '\n' || b[i]
            == '\t',
        forall|i: int| 0 <= i < m.len() ==> '0' <= #[trigger] m[i] <= '9' || m[i] == ';',
        ('a' <= f <= 'z') || ('A' <= f <= 'Z') || f == '~',
    ensures
        editor::sanitized(a + seq!['\x1b', '['] + m + seq![f] + b) == a + b,
{
    let e = Seq::<char>::empty();
    lemma_scan_goes_on(e, a);
    assert(e + a =~= a);
    assert(editor::typed_scan(e).kept + a =~= a);
    let s1 = a.push('\x1b');
    assert(s1.drop_last() =~= a);
    let s2 = s1.push('[');
    assert(s2.drop_last() =~= s1);
    assert(s2 =~= a + seq!['\x1b', '[']);
    assert(editor::typed_scan(a).at == editor::Typed::Text && editor::typed_scan(a).kept == a);
    assert(editor::typed_scan(s1) == editor::typed_step(editor::typed_scan(a), s1.last()));
    assert(editor::typed_scan(s2) == editor::typed_step(editor::typed_scan(s1), s2.last()));
    assert(editor::typed_scan(s2).at == editor::Typed::Control);
    lemma_scan_skips(s2, m);
    let s3 = (s2 + m).push(f);
    assert(s3.drop_last() =~= s2 + m);
    assert(s3 =~= a + seq!['\x1b', '['] + m + seq![f]);
    assert(editor::typed_scan(s3) == editor::typed_step(editor::typed_scan(s2 + m), f));
    lemma_scan_goes_on(s3, b);
}

/// Every line end of a pasted text becomes one line feed, however it was written.
pub proof fn law_line_ends_are_line_feeds(a: Seq<char>, c: char)
    requires
        a.len() == 0 || a.last() != '\r',
    ensures
        editor::with_line_feeds(a.push('\r').push('\n')) == editor::with_line_feeds(a).push('\n'),
        editor::with_line_feeds(a.push('\r')) == editor::with_line_feeds(a).push('\n'),
        editor::with_line_feeds(a.push('\n')) == editor::with_line_feeds(a).push('\n'),
        c != '\r' ==> editor::with_line_feeds(a.push(c)) == editor::with_line_feeds(a).push(c),
        editor::with_line_feeds(Seq::empty()).len() == 0,
{
    let r = a.push('\r');
    assert(r.drop_last() =~= a);
    assert(r.push('\n').drop_last() =~= r);
    assert(a.push('\n').drop_last() =~= a);
    assert(a.push(c).drop_last() =~= a);
    let rn = r.push('\n');
    assert(rn.len() > 1 && rn[rn.len() - 2] == '\r' && rn.last() == '\n');
    assert(editor::with_line_feeds(rn) == editor::with_line_feeds(rn.drop_last()));
    if a.len() > 0 {
        assert(a.push('\n')[a.len() - 1] == a.last());
        assert(a.push(c)[a.len() - 1] == a.last());
    }
}

// --------------------------------------------------------------------- the start

/// The program starts with the banner and a notice, with the mode, the persona and the
/// configuration that it was given, and with nothing typed or asked; the session that is
/// loaded is told, and on a first run what is to be done.
pub proof fn law_program_starts(mode: Mode, persona: Seq<char>, configured: bool, id: Seq<char>)
    ensures
        ({
            let s = chat::started(mode, persona, configured, false, None);
            let r = chat::started(mode, persona, configured, false, Some(id));
            let f = chat::started(mode, persona, configured, true, None);
            &&& s.talk.items.len() == 2 && s.talk.items[0] == MsgView::Logo && s.talk.items[1]
                is Notice
            &&& s.mode == mode && s.talk.persona == persona && s.configured == configured
            &&& s.input.len() == 0 && s.cursor == 0 && in_front(s) && !s.talk.busy && !s.quit
            &&& s.scroll.at_bottom && s.talk.session_id.len() == 0
            &&& r.talk.items.len() == 3 && r.talk.items[2] is Notice && scan::occurs(
                r.talk.items[2]->Notice_0,
                id,
            )
            &&& f.talk.items.len() == 4 && f.talk.items[3] is Notice
        }),
{
    text_laws::law_parts_occur("▶ 正在恢复会话 "@, id, "…"@);
}

// ----------------------------------------------------------------------- the bar

/// The left button on the bar moves the view in proportion: as many of the lines lie
/// below it as there are rows of the bar below the mouse, to within one line.
pub proof fn law_bar_moves_in_proportion(s: Scroll, row: u16)
    requires
        s.range > 0,
        s.area.height >= 4,
        s.area.y + s.area.height <= 65535,
        s.area.y < row < s.area.y + s.area.height - 1,
    ensures
        ({
            let d = s.area.height - 3;
            let below = s.area.y + s.area.height - 2 - row;
            let back = scroll::jumped(s, row).back as int;
            s.range * below <= back * d < s.range * below + d
        }),
{
    let d = s.area.height - 3;
    let r = row - s.area.y - 1;
    let below = s.area.y + s.area.height - 2 - row;
    let n = s.range as int;
    let q = (n * r) / d;
    scroll::law_jump_stays_in_range(s, row);
    vstd::arithmetic::div_mod::lemma_fundamental_div_mod(n * r, d);
    vstd::arithmetic::div_mod::lemma_mod_bound(n * r, d);
    assert((n - q) * d == n * d - d * q) by (nonlinear_arith);
    assert(n * (d - r) == n * d - n * r) by (nonlinear_arith);
    assert(below == d - r);
    assert(0 <= q <= n) by (nonlinear_arith)
        requires
            d * q <= n * r,
            n * r < d * q + d,
            0 <= r <= d,
            0 < d,
            0 < n,
    ;
    assert(scroll::jumped(s, row).back == n - q);
}

/// The bar is as much of the view as the view is of all lines, to within one row, and
/// one row at least.
pub proof fn law_bar_shows_the_share(total: int, view_h: int)
    requires
        0 < view_h < total,
    ensures
        ({
            let len = scroll::bar_len(total, view_h);
            &&& view_h * view_h >= total ==> len * total <= view_h * view_h < len * total + total
            &&& view_h * view_h < total ==> len == 1
        }),
{
    let a = view_h * view_h;
    let t = a / total;
    vstd::arithmetic::div_mod::lemma_fundamental_div_mod(a, total);
    vstd::arithmetic::div_mod::lemma_mod_bound(a, total);
    assert(total * t == t * total) by (nonlinear_arith);
    assert(a < total * view_h) by (nonlinear_arith)
        requires
            a == view_h * view_h,
            0 < view_h < total,
    ;
    if t > view_h {
        assert(t * total >= view_h * total) by (nonlinear_arith)
            requires
                t > view_h,
                total > 0,
        ;
        assert(total * view_h == view_h * total) by (nonlinear_arith);
    }
    if a >= total && t < 1 {
        assert(t * total <= 0) by (nonlinear_arith)
            requires
                t < 1,
                total > 0,
        ;
    }
    if a < total && t >= 1 {
        assert(t * total >= total) by (nonlinear_arith)
            requires
                t >= 1,
                total > 0,
        ;
    }
}

} // verus!
