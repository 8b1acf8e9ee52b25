//! What holds of the program from its start to its end, whatever is typed, looked up
//! and said meanwhile.
use crate::chat;
use crate::chat::AppView;
use crate::command;
use crate::command::{AnswerView, SnapshotView};
use crate::completion::{CompletionKind, ItemView, SkillView};
use crate::completion_menu;
use crate::editor;
use crate::input::{KeyCode, KeyEvent};
use crate::mode::Mode;
use crate::scan;
use crate::scroll;
use crate::scroll::{MouseEvent, Scroll};
use crate::transcript;
use crate::transcript::EventView;
use vstd::prelude::*;

verus! {

/// What was found or done for a command.
pub enum Lookup {
    Skills { skills: Seq<SkillView>, warnings: Seq<Seq<char>> },
    Skill {
        word: Seq<char>,
        args: Seq<char>,
        found: Option<(SkillView, Seq<char>)>,
        any: bool,
    },
    UndoList(Seq<SnapshotView>),
    Undone { number: nat, undone: Result<(Seq<char>, nat), Seq<char>> },
    Resume { del: bool, target: Option<Seq<char>>, sessions: Seq<Seq<char>> },
    Deleted { path: Seq<char>, result: Result<(), Seq<char>> },
    Persona { target: Option<Seq<char>>, known: Seq<Seq<char>>, current: Seq<char> },
}

/// The answer to a command for which something was looked up.
pub open spec fn answer_to(l: Lookup) -> AnswerView {
    match l {
        Lookup::Skills { skills, warnings } => command::skills_answer(skills, warnings),
        Lookup::Skill { word, args, found, any } => command::skill_answer(word, args, found, any),
        Lookup::UndoList(v) => command::undo_list_answer(v),
        Lookup::Undone { number, undone } => command::undone_answer(number, undone),
        Lookup::Resume { del, target, sessions } => command::resume_answer(del, target, sessions),
        Lookup::Deleted { path, result } => command::deleted_answer(path, result),
        Lookup::Persona { target, known, current } => command::persona_answer(
            target,
            known,
            current,
        ),
    }
}

/// What comes to the program from outside.
pub enum Input {
    Key { key: KeyEvent, wizard: bool, sessions: bool },
    Paste { text: Seq<char>, wizard: bool },
    Mouse(MouseEvent),
    /// The messages were drawn, which settles how far they are scrolled.
    Drawn(Scroll),
    Found(Lookup),
    Refresh { wizard: bool },
    Listed { kind: CompletionKind, word_start: nat, typed: Seq<char>, items: Seq<ItemView> },
    Checked { window: nat },
    News(Seq<char>),
    ManagerClosed,
    SessionChosen,
    WizardLeft,
    Connected { provider: Seq<char>, model: Seq<char>, saved: Result<(), Seq<char>> },
    Said { event: EventView, now: u64 },
}

/// The program after something came from outside.
pub open spec fn after_input(s: AppView, i: Input) -> AppView {
    match i {
        Input::Key { key, wizard, sessions } => chat::keyed(s, key, wizard, sessions).0,
        Input::Paste { text, wizard } => chat::pasted(s, text, wizard),
        Input::Mouse(m) => AppView { scroll: scroll::mouse_scrolled(s.scroll, m), ..s },
        Input::Drawn(scroll) => AppView { scroll, ..s },
        Input::Found(l) => chat::taken(s, answer_to(l)).0,
        Input::Refresh { wizard } => chat::refreshed(s, wizard).0,
        Input::Listed { kind, word_start, typed, items } => AppView {
            completion: completion_menu::opened(kind, word_start, typed, items),
            ..s
        },
        Input::Checked { window } => chat::context_checked(s, window),
        Input::News(t) => chat::noticed(s, t),
        Input::ManagerClosed => chat::manager_closed(s),
        Input::SessionChosen => chat::session_chosen(s),
        Input::WizardLeft => chat::wizard_left(s),
        Input::Connected { provider, model, saved } => chat::connected(s, provider, model, saved),
        Input::Said { event, now } => AppView {
            talk: transcript::after(s.talk, event, now),
            ..s
        },
    }
}

/// The program after things came from outside, one after the other.
pub open spec fn after_inputs(s: AppView, v: Seq<Input>) -> AppView
    decreases v.len(),
{
    if v.len() == 0 {
        s
    } else {
        after_input(after_inputs(s, v.drop_last()), v.last())
    }
}

/// Whether the program ends with an input: at once, or because it is to quit.
pub open spec fn ends(s: AppView, i: Input) -> bool {
    ||| (i matches Input::Key { key, wizard, sessions } && chat::keyed(
        s,
        key,
        wizard,
        sessions,
    ).1 is Exit)
    ||| after_input(s, i).quit
}

/// The user asks for the end: with `Ctrl+C`, or by sending `/quit` or `/exit`.
pub open spec fn asks_to_end(s: AppView, i: Input) -> bool {
    i matches Input::Key { key, wizard, sessions } && ({
        let w = scan::words(scan::trimmed(s.input));
        ||| key.code == KeyCode::Char('c') && key.control
        ||| editor::text_action(key) is Submit && w.len() > 0 && (w[0] == "/quit"@ || w[0]
            == "/exit"@)
    })
}

/// Whether the counters can take what is said, each time.
pub open spec fn can_take_inputs(s: AppView, v: Seq<Input>) -> bool
    decreases v.len(),
{
    v.len() > 0 ==> can_take_inputs(s, v.drop_last()) && match v.last() {
        Input::Said { event, now } => transcript::can_take(
            after_inputs(s, v.drop_last()).talk,
            event,
        ),
        _ => true,
    }
}

/// What the session said.
pub open spec fn said(v: Seq<Input>) -> Seq<(EventView, u64)>
    decreases v.len(),
{
    if v.len() == 0 {
        Seq::empty()
    } else {
        match v.last() {
            Input::Said { event, now } => said(v.drop_last()).push((event, now)),
            _ => said(v.drop_last()),
        }
    }
}

/// The last session that was named, if any was.
pub open spec fn last_session(es: Seq<(EventView, u64)>) -> Seq<char>
    decreases es.len(),
{
    if es.len() == 0 {
        Seq::empty()
    } else {
        match es.last().0 {
            EventView::SessionInfo { id } => id,
            _ => last_session(es.drop_last()),
        }
    }
}

proof fn lemma_submitted_quits(s: AppView)
    ensures
        chat::submitted(s).0.quit && !s.quit ==> ({
            let w = scan::words(scan::trimmed(s.input));
            w.len() > 0 && (w[0] == "/quit"@ || w[0] == "/exit"@)
        }),
        chat::submitted(s).0.talk.stats == s.talk.stats,
        chat::submitted(s).0.talk.session_id == s.talk.session_id,
        chat::submitted(s).0.configured == s.configured,
        !(chat::submitted(s).1 is Exit),
{
    reveal_strlit("/quit");
    reveal_strlit("/exit");
}

proof fn lemma_key(s: AppView, key: KeyEvent, wizard: bool, sessions: bool)
    ensures
        ({
            let i = Input::Key { key, wizard, sessions };
            let t = after_input(s, i);
            &&& !s.quit && ends(s, i) ==> asks_to_end(s, i)
            &&& t.talk.stats == s.talk.stats
            &&& t.talk.session_id == s.talk.session_id
            &&& t.configured == s.configured
        }),
{
    lemma_submitted_quits(s);
}

/// What is looked up for a command never ends the program.
pub proof fn law_lookups_do_not_quit(l: Lookup)
    ensures
        !(answer_to(l).act is Quit),
{
}

/// The program ends with an input only where the user asks for it, and nothing but
/// what the session says changes its name and its counters.
pub proof fn law_end_is_asked_for(s: AppView, i: Input)
    ensures
        !s.quit && ends(s, i) ==> asks_to_end(s, i),
        !(i is Said) ==> after_input(s, i).talk.stats == s.talk.stats && after_input(
            s,
            i,
        ).talk.session_id == s.talk.session_id,
{
    match i {
        Input::Key { key, wizard, sessions } => lemma_key(s, key, wizard, sessions),
        Input::Found(l) => law_lookups_do_not_quit(l),
        _ => {},
    }
}

/// A connection was tried with success, and its settings were written.
pub open spec fn unlocks(i: Input) -> bool {
    i matches Input::Connected { provider, model, saved } && saved is Ok
}

proof fn lemma_lock(s: AppView, i: Input)
    requires
        !unlocks(i),
        !s.configured,
    ensures
        !after_input(s, i).configured,
{
    match i {
        Input::Key { key, wizard, sessions } => lemma_key(s, key, wizard, sessions),
        _ => {},
    }
}

/// A program that starts without settings is of no use before a connection was tried
/// with success and its settings were written: as long as none was, it counts as not
/// configured, and neither a key nor the answer to a command begins a task.
pub proof fn law_nothing_is_unlocked_before_a_connection(
    s: AppView,
    v: Seq<Input>,
    key: KeyEvent,
    wizard: bool,
    sessions: bool,
    l: Lookup,
)
    requires
        !s.configured,
        forall|k: int| 0 <= k < v.len() ==> !unlocks(#[trigger] v[k]),
    ensures
        !after_inputs(s, v).configured,
        ({
            let a = chat::keyed(after_inputs(s, v), key, wizard, sessions).1;
            !(a is Prompt) && !(a is RunSkill) && !(a is Compact)
        }),
        ({
            let a = chat::taken(after_inputs(s, v), answer_to(l)).1;
            !(a is Prompt) && !(a is RunSkill) && !(a is Compact)
        }),
    decreases v.len(),
{
    if v.len() > 0 {
        let t = v.drop_last();
        assert forall|k: int| 0 <= k < t.len() implies !unlocks(#[trigger] t[k]) by {
            assert(t[k] == v[k]);
        }
        law_nothing_is_unlocked_before_a_connection(s, t, key, wizard, sessions, l);
        assert(!unlocks(v[v.len() - 1]));
        lemma_lock(after_inputs(s, t), v.last());
    }
    chat::law_no_task_without_model(after_inputs(s, v), key, wizard, sessions);
    chat::law_no_answer_without_model(after_inputs(s, v), answer_to(l));
}

/// Use is unlocked by a verified connection alone: a program that started without
/// settings and now has them was given a connection whose settings were written.
pub proof fn law_use_is_unlocked_by_a_connection(s: AppView, v: Seq<Input>)
    requires
        !s.configured,
    ensures
        after_inputs(s, v).configured ==> exists|k: int|
            0 <= k < v.len() && unlocks(#[trigger] v[k]),
    decreases v.len(),
{
    if v.len() > 0 && after_inputs(s, v).configured {
        let t = v.drop_last();
        if after_inputs(s, t).configured {
            law_use_is_unlocked_by_a_connection(s, t);
            let k = choose|k: int| 0 <= k < t.len() && unlocks(#[trigger] t[k]);
            assert(unlocks(v[k]));
        } else if !unlocks(v.last()) {
            lemma_lock(after_inputs(s, t), v.last());
        } else {
            assert(unlocks(v[v.len() - 1]));
        }
    }
}

/// `Ctrl+C` ends the program wherever it is; `/quit` and `/exit`, once sent, do so
/// where no window takes the key.
pub proof fn law_asked_end_comes(s: AppView, key: KeyEvent, wizard: bool, sessions: bool)
    ensures
        key.code == KeyCode::Char('c') && key.control ==> chat::keyed(
            s,
            key,
            wizard,
            sessions,
        ).1 is Exit,
        ({
            &&& key.code == KeyCode::Enter
            &&& editor::text_action(key) is Submit
            &&& s.talk.permission is None
            &&& s.confirm is None
            &&& completion_menu::menu_step(s.completion, key) is Pass
            &&& !wizard
            &&& !sessions
            &&& scan::trimmed(s.input) == "/quit"@ || scan::trimmed(s.input) == "/exit"@
        }) ==> chat::keyed(s, key, wizard, sessions).0.quit,
{
    lemma_quit_words();
    reveal_strlit("/quit");
    reveal_strlit("/exit");
    reveal_strlit("/config");
    assert("/quit"@.len() == 5 && "/quit"@[0] == '/');
    assert("/exit"@.len() == 5 && "/exit"@[0] == '/');
    assert("/config"@.len() == 7);
    assert(command::command_of("/quit"@) is Quit) by {
        lemma_quit_is_no_other("/quit"@);
    }
    assert(command::command_of("/exit"@) is Quit) by {
        lemma_quit_is_no_other("/exit"@);
    }
}

proof fn lemma_quit_is_no_other(n: Seq<char>)
    requires
        n == "/quit"@ || n == "/exit"@,
    ensures
        n != "/help"@,
        n != "/clear"@,
        n != "/skills"@,
        n != "/undo"@,
        n != "/resume"@,
        n != "/compact"@,
{
    reveal_strlit("/quit");
    reveal_strlit("/exit");
    reveal_strlit("/help");
    reveal_strlit("/clear");
    reveal_strlit("/skills");
    reveal_strlit("/undo");
    reveal_strlit("/resume");
    reveal_strlit("/compact");
    assert(n[1] == 'q' || n[1] == 'e');
    assert("/help"@[1] == 'h');
    assert("/clear"@[1] == 'c');
    assert("/skills"@[1] == 's');
    assert("/undo"@[1] == 'u');
    assert("/resume"@[1] == 'r');
    assert("/compact"@[1] == 'c');
}

/// A text of characters, none of them white space, is one word.
proof fn lemma_one_word(s: Seq<char>)
    requires
        s.len() > 0,
        forall|i: int| 0 <= i < s.len() ==> !crate::text::is_white(#[trigger] s[i]),
    ensures
        scan::words(s) == seq![s],
{
    lemma_word_grows(s);
}

proof fn lemma_word_grows(s: Seq<char>)
    requires
        forall|i: int| 0 <= i < s.len() ==> !crate::text::is_white(#[trigger] s[i]),
    ensures
        scan::word_scan(s).done.len() == 0,
        scan::word_scan(s).cur == s,
    decreases s.len(),
{
    if s.len() > 0 {
        let t = s.drop_last();
        assert forall|i: int| 0 <= i < t.len() implies !crate::text::is_white(#[trigger] t[i]) by {
            assert(t[i] == s[i]);
        }
        lemma_word_grows(t);
        assert(!crate::text::is_white(s[s.len() - 1]));
        assert(t.push(s.last()) =~= s);
    }
}

proof fn lemma_quit_words()
    ensures
        scan::words("/quit"@) == seq!["/quit"@],
        scan::words("/exit"@) == seq!["/exit"@],
{
    reveal_strlit("/quit");
    reveal_strlit("/exit");
    lemma_one_word("/quit"@);
    lemma_one_word("/exit"@);
}

proof fn lemma_not_quit_before(s: AppView, v: Seq<Input>) -> (k: int)
    requires
        !s.quit,
        after_inputs(s, v).quit,
    ensures
        0 <= k < v.len(),
        asks_to_end(after_inputs(s, v.take(k)), v[k]),
    decreases v.len(),
{
    let t = v.drop_last();
    if after_inputs(s, t).quit {
        let k = lemma_not_quit_before(s, t);
        assert(t.take(k) =~= v.take(k));
        k
    } else {
        law_end_is_asked_for(after_inputs(s, t), v.last());
        assert(v.take(v.len() - 1) =~= t);
        v.len() - 1
    }
}

proof fn lemma_session_and_counters(s: AppView, v: Seq<Input>)
    requires
        can_take_inputs(s, v),
        s.talk.session_id.len() == 0,
    ensures
        after_inputs(s, v).talk.session_id == last_session(said(v)),
        after_inputs(s, v).talk.stats.input == s.talk.stats.input + transcript::used(said(v)).0,
        after_inputs(s, v).talk.stats.output == s.talk.stats.output + transcript::used(
            said(v),
        ).1,
    decreases v.len(),
{
    if v.len() > 0 {
        let t = v.drop_last();
        let x = after_inputs(s, t);
        lemma_session_and_counters(s, t);
        match v.last() {
            Input::Said { event, now } => {
                assert(said(v).drop_last() =~= said(t));
                assert(said(v).last() == (event, now));
            },
            _ => {
                law_end_is_asked_for(x, v.last());
            },
        }
    } else {
        assert(s.talk.session_id =~= Seq::<char>::empty());
    }
}

/// The whole run of the program, from its start: an input with which it ends is one by
/// which the user asks for that, with `Ctrl+C`, `/quit` or `/exit`, and it is to quit
/// only after such an input. Its session is the one that was named last, or has no
/// name, and its counters are the sums of what the server counted, whatever else was
/// typed, looked up and said.
pub proof fn law_whole_run(
    mode: Mode,
    persona: Seq<char>,
    configured: bool,
    first_run: bool,
    resume: Option<Seq<char>>,
    v: Seq<Input>,
)
    requires
        can_take_inputs(chat::started(mode, persona, configured, first_run, resume), v),
    ensures
        ({
            let s = chat::started(mode, persona, configured, first_run, resume);
            let e = after_inputs(s, v);
            &&& e.talk.session_id == last_session(said(v))
            &&& e.talk.stats.input == transcript::used(said(v)).0
            &&& e.talk.stats.output == transcript::used(said(v)).1
            &&& forall|k: int|
                0 <= k < v.len() && !after_inputs(s, #[trigger] v.take(k)).quit && ends(
                    after_inputs(s, v.take(k)),
                    v[k],
                ) ==> asks_to_end(after_inputs(s, v.take(k)), v[k])
            &&& e.quit ==> exists|k: int|
                0 <= k < v.len() && asks_to_end(
                    after_inputs(s, #[trigger] v.take(k)),
                    v[k],
                )
        }),
{
    let s = chat::started(mode, persona, configured, first_run, resume);
    lemma_session_and_counters(s, v);
    assert forall|k: int|
        0 <= k < v.len() && !after_inputs(s, #[trigger] v.take(k)).quit && ends(
            after_inputs(s, v.take(k)),
            v[k],
        ) implies asks_to_end(after_inputs(s, v.take(k)), v[k]) by {
        law_end_is_asked_for(after_inputs(s, v.take(k)), v[k]);
    }
    if after_inputs(s, v).quit {
        let k = lemma_not_quit_before(s, v);
        assert(asks_to_end(after_inputs(s, v.take(k)), v[k]));
    }
}

} // verus!
