//! What the events of a session, and the messages of an earlier one, make of the
//! conversation.

use crate::editor;
use crate::live;
use crate::messages;
use crate::messages::{CallView, CardView, ChatView, MsgView, Replay, Role};
use crate::scan;
use crate::text;
use crate::text_laws;
use crate::tool_args;
use crate::tool_args::Shape;
use crate::transcript;
use crate::transcript::{BusyKind, Counted, EventView, PromptView, TalkView, TokenStats};
use vstd::prelude::*;

verus! {

// ----------------------------------------------------------------------- answers

/// What comes of an answer goes behind what came of it before; where no answer was
/// coming in, a new one begins behind all other items, which stay as they are.
pub proof fn law_answers_grow(s: TalkView, v: Seq<MsgView>, x: Seq<char>, t: Seq<char>, now: u64)
    ensures
        s.items == v.push(MsgView::AssistantStream(x)) ==> transcript::after(
            s,
            EventView::TextDelta(t),
            now,
        ).items == v.push(MsgView::AssistantStream(x + t)),
        s.items.len() == 0 || !(s.items.last() is AssistantStream) ==> transcript::after(
            s,
            EventView::TextDelta(t),
            now,
        ).items == s.items.push(MsgView::AssistantStream(t)),
        ({
            let r = transcript::after(s, EventView::TextDelta(t), now);
            r == (TalkView {
                items: r.items,
                stats: TokenStats { round_est: r.stats.round_est, ..s.stats },
                ..s
            })
        }),
{
    if s.items == v.push(MsgView::AssistantStream(x)) {
        assert(s.items.drop_last() =~= v);
        assert(s.items.last() == MsgView::AssistantStream(x));
    }
}

/// What comes of a thought goes behind what came of it before; where no thought was
/// coming in, a new one begins behind all other items, which stay as they are.
pub proof fn law_thoughts_grow(s: TalkView, v: Seq<MsgView>, x: Seq<char>, t: Seq<char>, now: u64)
    ensures
        s.items == v.push(MsgView::Reasoning(x)) ==> transcript::after(
            s,
            EventView::ReasoningDelta(t),
            now,
        ).items == v.push(MsgView::Reasoning(x + t)),
        s.items.len() == 0 || !(s.items.last() is Reasoning) ==> transcript::after(
            s,
            EventView::ReasoningDelta(t),
            now,
        ).items == s.items.push(MsgView::Reasoning(t)),
        ({
            let r = transcript::after(s, EventView::ReasoningDelta(t), now);
            r == (TalkView {
                items: r.items,
                stats: TokenStats { round_est: r.stats.round_est, ..s.stats },
                ..s
            })
        }),
{
    if s.items == v.push(MsgView::Reasoning(x)) {
        assert(s.items.drop_last() =~= v);
        assert(s.items.last() == MsgView::Reasoning(x));
    }
}

/// An answer that comes in parts is the same as one that comes whole.
pub proof fn law_parts_make_the_whole(s: TalkView, a: Seq<char>, b: Seq<char>, now: u64)
    ensures
        transcript::after(
            transcript::after(s, EventView::TextDelta(a), now),
            EventView::TextDelta(b),
            now,
        ).items == transcript::after(s, EventView::TextDelta(a + b), now).items,
        transcript::after(
            transcript::after(s, EventView::ReasoningDelta(a), now),
            EventView::ReasoningDelta(b),
            now,
        ).items == transcript::after(s, EventView::ReasoningDelta(a + b), now).items,
{
    let p = transcript::after(s, EventView::TextDelta(a), now);
    let q = transcript::after(s, EventView::ReasoningDelta(a), now);
    let n = s.items.len();
    if n > 0 && s.items.last() is AssistantStream {
        let v = s.items.drop_last();
        let x = s.items.last()->AssistantStream_0;
        assert(s.items =~= v.push(MsgView::AssistantStream(x)));
        law_answers_grow(s, v, x, a, now);
        law_answers_grow(p, v, x + a, b, now);
        law_answers_grow(s, v, x, a + b, now);
        assert(x + a + b =~= x + (a + b));
    } else {
        law_answers_grow(s, s.items, a, a, now);
        law_answers_grow(p, s.items, a, b, now);
        law_answers_grow(s, s.items, a, a + b, now);
    }
    if n > 0 && s.items.last() is Reasoning {
        let v = s.items.drop_last();
        let x = s.items.last()->Reasoning_0;
        assert(s.items =~= v.push(MsgView::Reasoning(x)));
        law_thoughts_grow(s, v, x, a, now);
        law_thoughts_grow(q, v, x + a, b, now);
        law_thoughts_grow(s, v, x, a + b, now);
        assert(x + a + b =~= x + (a + b));
    } else {
        law_thoughts_grow(s, s.items, a, a, now);
        law_thoughts_grow(q, s.items, a, b, now);
        law_thoughts_grow(s, s.items, a, a + b, now);
    }
}

/// The end of a turn shows its answer where it was not shown as it came in, and marks
/// one that broke off; a turn without an answer shows nothing.
pub proof fn law_turns_end_with_their_answer(
    s: TalkView,
    v: Seq<MsgView>,
    x: Seq<char>,
    t: Seq<char>,
    now: u64,
)
    ensures
        ({
            let whole = transcript::after(
                s,
                EventView::TurnFinished { text: t, truncated: false },
                now,
            );
            let broken = transcript::after(
                s,
                EventView::TurnFinished { text: t, truncated: true },
                now,
            );
            let e = Seq::<char>::empty();
            &&& s.items == v.push(MsgView::AssistantStream(x)) ==> whole.items == s.items
            &&& s.items == v.push(MsgView::AssistantStream(x)) && t.len() > 0 ==> broken.items
                == v.push(MsgView::AssistantStream(x + "\n[⚠ 未完成]"@))
            &&& (s.items.len() == 0 || !(s.items.last() is AssistantStream)) && t.len() > 0 ==> {
                &&& whole.items == s.items.push(MsgView::Assistant(t))
                &&& broken.items == s.items.push(MsgView::Assistant("[⚠ 未完成] "@ + t))
            }
            &&& t.len() == 0 ==> whole.items == s.items && broken.items == s.items
            &&& whole.stats == (TokenStats { round_est: 0, ..s.stats })
            &&& whole.session_id == s.session_id && whole.persona == s.persona
        }),
{
    if s.items == v.push(MsgView::AssistantStream(x)) {
        assert(s.items.drop_last() =~= v);
        assert(s.items.last() == MsgView::AssistantStream(x));
        reveal_strlit("");
        assert(x + ""@ =~= x);
    }
}

// ------------------------------------------------------------------------- tools

/// A tool that starts gets a card behind all other items: with its name and what it was
/// called with, not answered yet.
pub proof fn law_tools_get_cards(
    s: TalkView,
    name: Seq<char>,
    args: Seq<char>,
    idle_ms: Option<u64>,
    now: u64,
)
    ensures
        transcript::after(s, EventView::ToolStarted { name, args, idle_ms }, now) == (TalkView {
            items: s.items.push(
                MsgView::Tool(
                    CardView {
                        name,
                        args,
                        ok: None,
                        output: Seq::empty(),
                        started: Some(now),
                        done_secs: None,
                        idle_ms,
                        silent: 0,
                        live: Seq::empty(),
                    },
                ),
            ),
            ..s
        }),
{
}

/// No item behind `i` is a card of the named tool, of one that runs where that is asked
/// for.
pub open spec fn none_behind(items: Seq<MsgView>, name: Seq<char>, running: bool, i: int) -> bool {
    forall|j: int|
        i < j < items.len() && (#[trigger] items[j]) is Tool && items[j]->Tool_0.name == name
            ==> running && items[j]->Tool_0.ok is Some
}

proof fn lemma_latest(items: Seq<MsgView>, name: Seq<char>, running: bool, i: int, n: int)
    requires
        -1 <= i < n <= items.len(),
        i >= 0 ==> items[i] is Tool && items[i]->Tool_0.name == name && (running
            ==> items[i]->Tool_0.ok is None),
        none_behind(items, name, running, i),
    ensures
        transcript::last_card(items, name, running, n) == i,
    decreases n,
{
    if n - 1 == i {
        if i == -1 {
        }
    } else {
        assert(items[n - 1] is Tool && items[n - 1]->Tool_0.name == name ==> running && items[n
            - 1]->Tool_0.ok is Some);
        if n - 1 > i + 1 || i >= 0 {
            lemma_latest(items, name, running, i, n - 1);
        } else {
            assert(transcript::last_card(items, name, running, 0) == -1);
        }
    }
}

/// The end of a tool goes to its latest card: that shows how it ended, what came out
/// and how many whole seconds it took, and every other item stays. Where there is no
/// card of that name, nothing changes.
pub proof fn law_tools_end_on_their_card(
    s: TalkView,
    i: int,
    name: Seq<char>,
    ok: bool,
    output: Seq<char>,
    now: u64,
)
    requires
        -1 <= i < s.items.len(),
        i >= 0 ==> s.items[i] is Tool && s.items[i]->Tool_0.name == name,
        none_behind(s.items, name, false, i),
    ensures
        ({
            let r = transcript::after(s, EventView::ToolFinished { name, ok, output }, now);
            &&& i < 0 ==> r == s
            &&& i >= 0 ==> {
                let c = s.items[i]->Tool_0;
                let d = r.items[i]->Tool_0;
                &&& r == (TalkView { items: s.items.update(i, r.items[i]), ..s })
                &&& r.items[i] is Tool
                &&& d == (CardView {
                    ok: Some(ok),
                    output,
                    live: Seq::empty(),
                    done_secs: d.done_secs,
                    ..c
                })
                &&& c.started is Some && c.started->Some_0 <= now ==> {
                    let took = (now - c.started->Some_0) as int;
                    d.done_secs is Some && d.done_secs->Some_0 * 1000 <= took
                        < d.done_secs->Some_0 * 1000 + 1000
                }
                &&& c.started is None ==> d.done_secs == c.done_secs
            }
        }),
{
    let n = s.items.len() as int;
    if n > 0 {
        lemma_latest(s.items, name, false, i, n);
    }
    let r = transcript::after(s, EventView::ToolFinished { name, ok, output }, now);
    if i >= 0 {
        assert(r.items =~= s.items.update(i, r.items[i]));
    }
}

/// What a running tool prints goes behind what its latest running card holds, as long
/// as that is not too long, and a warning of its silence is kept there; every other
/// item stays.
pub proof fn law_running_tools_report(
    s: TalkView,
    i: int,
    name: Seq<char>,
    delta: Seq<char>,
    level: u8,
    now: u64,
)
    requires
        -1 <= i < s.items.len(),
        i >= 0 ==> s.items[i] is Tool && s.items[i]->Tool_0.name == name
            && s.items[i]->Tool_0.ok is None,
        none_behind(s.items, name, true, i),
    ensures
        ({
            let r = transcript::after(s, EventView::ToolOutputDelta { name, delta }, now);
            let q = transcript::after(s, EventView::ToolSilentAlert { name, level }, now);
            let c = s.items[i]->Tool_0;
            &&& i < 0 ==> r == s && q == s
            &&& i >= 0 && editor::byte_len(c.live + delta) <= 131072 ==> r == (TalkView {
                items: s.items.update(
                    i,
                    MsgView::Tool(CardView { live: c.live + delta, ..c }),
                ),
                ..s
            })
            &&& i >= 0 ==> r == (TalkView { items: s.items.update(i, r.items[i]), ..s })
            &&& i >= 0 ==> q == (TalkView {
                items: s.items.update(i, MsgView::Tool(CardView { silent: level, ..c })),
                ..s
            })
        }),
{
    let n = s.items.len() as int;
    if n > 0 {
        lemma_latest(s.items, name, true, i, n);
    }
    let r = transcript::after(s, EventView::ToolOutputDelta { name, delta }, now);
    if i >= 0 {
        assert(r.items =~= s.items.update(i, r.items[i]));
    }
}

/// Running output of up to 131072 bytes is kept whole; of longer output the end is
/// kept, of 65536 bytes less at most what is left of a character that was cut.
pub proof fn law_end_of_output_is_kept(s: Seq<char>)
    ensures
        editor::byte_len(s) <= 131072 ==> live::capped(s) == s,
        editor::byte_len(s) > 131072 ==> 65532 < editor::byte_len(live::capped(s)) <= 65536,
        exists|a: Seq<char>| s == #[trigger] (a + live::capped(s)),
{
    let n = editor::byte_len(s);
    live::law_live_output_is_bounded(s);
    if n > 131072 {
        let b = (n - 65536) as nat;
        let k = editor::begun(s, b);
        editor::lemma_begun_bound(s, b);
        assert(s =~= s.take(k) + s.skip(k));
        editor::lemma_byte_len_add(s.take(k), s.skip(k));
        if k > 0 {
            assert(s.take(k).drop_last() =~= s.take(k - 1));
        }
        assert(s == s.take(k) + live::capped(s));
    } else {
        assert(s =~= Seq::<char>::empty() + live::capped(s));
    }
}

/// The last lines of a text are its last lines, in their order, whether or not a line
/// feed ends it.
pub proof fn law_last_lines(v: Seq<Seq<char>>, n: nat)
    requires
        v.len() > 0,
        forall|i: int| 0 <= i < v.len() ==> !(#[trigger] v[i]).contains('\n'),
        v.last().len() > 0,
    ensures
        ({
            let last = if v.len() > n {
                v.skip(v.len() - n)
            } else {
                v
            };
            &&& live::tail_lines(scan::join_lines(v), n) == scan::join_lines(last)
            &&& live::tail_lines(scan::join_lines(v).push('\n'), n) == scan::join_lines(last)
        }),
{
    let s = scan::join_lines(v);
    let e = Seq::<char>::empty();
    text_laws::law_joined_lines_are_found_again(v);
    text_laws::law_fields_are_parted(s, '\n', e);
    assert(s.push('\n') + e =~= s.push('\n'));
    let f = scan::fields(s.push('\n'), '\n');
    assert(f =~= v.push(e));
    assert(f.drop_last() =~= v);
}

// ------------------------------------------------------------------ other events

/// Each other event changes one thing: a notice is added behind all items, a question
/// is asked, the persona or the session gets another name, work begins.
pub proof fn law_events_change_one_thing(s: TalkView, t: Seq<char>, b: Seq<char>, now: u64)
    ensures
        transcript::after(s, EventView::Notice(t), now) == (TalkView {
            items: s.items.push(MsgView::Notice(t)),
            ..s
        }),
        transcript::after(s, EventView::PermissionRequest { title: t, body: b }, now) == (
        TalkView { permission: Some(PromptView { title: t, body: b }), ..s }),
        transcript::after(s, EventView::PersonaChanged { name: t }, now) == (TalkView {
            persona: t,
            ..s
        }),
        transcript::after(s, EventView::SessionInfo { id: t }, now) == (TalkView {
            session_id: t,
            ..s
        }),
        transcript::after(s, EventView::TurnStarted, now) == (TalkView {
            busy: true,
            busy_kind: BusyKind::Work,
            stats: TokenStats { round_est: 0, ..s.stats },
            ..s
        }),
        transcript::after(s, EventView::CompactionStarted, now) == (TalkView {
            busy: true,
            busy_kind: BusyKind::Compacting,
            ..s
        }),
{
}

/// What the server counted is added to the totals, and its last request is what the
/// context holds.
pub proof fn law_usage_is_added(s: TalkView, prompt: u64, completion: u64, now: u64)
    requires
        transcript::can_take(s, EventView::Usage { prompt, completion }),
    ensures
        ({
            let r = transcript::after(s, EventView::Usage { prompt, completion }, now);
            &&& r.stats.input == s.stats.input + prompt
            &&& r.stats.output == s.stats.output + completion
            &&& r.stats.last_prompt == prompt
            &&& r == (TalkView { stats: r.stats, ..s })
        }),
{
}

/// A cleared session shows one notice and nothing that was said before, and its context
/// is empty; the totals stay.
pub proof fn law_cleared_session_is_empty(s: TalkView, now: u64)
    ensures
        ({
            let r = transcript::after(s, EventView::ContextCleared, now);
            &&& r.items.len() == 1 && r.items[0] is Notice
            &&& r == (TalkView {
                items: r.items,
                stats: TokenStats { last_prompt: 0, ..s.stats },
                ..s
            })
        }),
{
}

/// A compacted session shows how many messages are gone, their summary, and behind
/// these the messages that were kept; it is not busy any more.
pub proof fn law_compacted_session_shows_what_was_kept(
    s: TalkView,
    removed: nat,
    summary: Seq<char>,
    kept: Seq<ChatView>,
    now: u64,
)
    ensures
        ({
            let r = transcript::after(
                s,
                EventView::ContextCompacted { removed, summary, kept },
                now,
            );
            &&& !r.busy && r.stats == (TokenStats { last_prompt: 0, ..s.stats })
            &&& r.items.len() >= 2 && r.items[0] is Notice && scan::occurs(
                r.items[0]->Notice_0,
                text::decimal(removed),
            )
            &&& r.items[1] == MsgView::CommandOutput(summary)
            &&& kept.len() == 0 ==> r.items.len() == 2
            &&& kept.len() > 0 ==> exists|head: Seq<MsgView>|
                #![trigger messages::replay(head, kept)]
                head.len() == 3 && r.items == messages::replay(head, kept).items
        }),
{
    let note = "✔ 上下文已压缩:此前 "@ + text::decimal(removed)
        + " 条旧消息收敛为一段摘要"@;
    text_laws::law_parts_occur(
        "✔ 上下文已压缩:此前 "@,
        text::decimal(removed),
        " 条旧消息收敛为一段摘要"@,
    );
    let head = Seq::<MsgView>::empty().push(MsgView::Notice(note)).push(
        MsgView::CommandOutput(summary),
    );
    if kept.len() > 0 {
        let h = head.push(
            MsgView::Notice("保留最近 "@ + text::decimal(kept.len()) + " 条消息:"@),
        );
        law_history_goes_behind(h, kept);
        let x = messages::replay(h, kept).items;
        assert(x.take(3)[0] == x[0] && x.take(3)[1] == x[1]);
        assert(h[0] == head[0] && h[1] == head[1]);
        assert(h.len() == 3);
    }
}

/// A loaded session shows how many messages it has, and behind that its messages;
/// nothing of what was shown before is left.
pub proof fn law_loaded_session_is_shown(s: TalkView, count: nat, ms: Seq<ChatView>, now: u64)
    ensures
        ({
            let r = transcript::after(s, EventView::HistoryLoaded { count, messages: ms }, now);
            &&& r == (TalkView { items: r.items, ..s })
            &&& r.items.len() >= 1 && r.items[0] is Notice && scan::occurs(
                r.items[0]->Notice_0,
                text::decimal(count),
            )
            &&& r.items == messages::replay(seq![r.items[0]], ms).items
        }),
{
    let a = "━━━ 已恢复历史会话("@;
    let b = " 条消息),内容如下 ━━━"@;
    text_laws::law_parts_occur(a, text::decimal(count), b);
    let h = Seq::<MsgView>::empty().push(MsgView::Notice(a + text::decimal(count) + b));
    law_history_goes_behind(h, ms);
    let x = messages::replay(h, ms).items;
    assert(x.take(1)[0] == x[0]);
    assert(seq![x[0]] =~= h);
}

// ----------------------------------------------------------------------- history

/// Every call that waits has its card at or behind a place of the list.
pub open spec fn waits_behind(r: Replay, n: int) -> bool {
    forall|k: Seq<char>| #[trigger] r.pending.dom().contains(k) ==> n <= r.pending[k]
}

proof fn lemma_calls_behind(r: Replay, calls: Seq<CallView>, n: int)
    requires
        waits_behind(r, n),
        0 <= n <= r.items.len(),
    ensures
        waits_behind(messages::with_calls(r, calls), n),
        messages::with_calls(r, calls).items.len() >= r.items.len(),
        messages::with_calls(r, calls).items.take(n) == r.items.take(n),
    decreases calls.len(),
{
    if calls.len() > 0 {
        lemma_calls_behind(r, calls.drop_last(), n);
        let x = messages::with_calls(r, calls.drop_last());
        let y = messages::with_calls(r, calls);
        assert(y == messages::with_call(x, calls.last()));
        assert forall|k: Seq<char>| #[trigger] y.pending.dom().contains(k) implies n
            <= y.pending[k] by {
            if k != calls.last().id {
                assert(x.pending.dom().contains(k));
            }
        }
        assert(y.items.take(n) =~= x.items.take(n));
    }
}

proof fn lemma_history_behind(items: Seq<MsgView>, ms: Seq<ChatView>)
    ensures
        waits_behind(messages::replay(items, ms), items.len() as int),
        messages::replay(items, ms).items.len() >= items.len(),
        messages::replay(items, ms).items.take(items.len() as int) == items,
    decreases ms.len(),
{
    let n = items.len() as int;
    if ms.len() == 0 {
        assert(items.take(n) =~= items);
    } else {
        lemma_history_behind(items, ms.drop_last());
        let x = messages::replay(items, ms.drop_last());
        let m = ms.last();
        let y = messages::replayed(x, m);
        match m.role {
            Role::System => {},
            Role::User => {
                assert(y.items.take(n) =~= x.items.take(n));
                assert(y.pending == x.pending);
            },
            Role::Assistant => {
                let q = Replay { items: messages::with_text(x.items, m.content, false), ..x };
                assert(q.pending == x.pending);
                assert(q.items.take(n) =~= x.items.take(n));
                lemma_calls_behind(q, m.tool_calls, n);
            },
            Role::Tool => {
                assert forall|k: Seq<char>| #[trigger] y.pending.dom().contains(k) implies n
                    <= y.pending[k] by {
                    assert(x.pending.dom().contains(k));
                }
                assert(y.items.take(n) =~= x.items.take(n));
            },
        }
    }
}

/// Earlier messages go behind what is shown already, which stays as it is.
pub proof fn law_history_goes_behind(items: Seq<MsgView>, ms: Seq<ChatView>)
    ensures
        messages::replay(items, ms).items.len() >= items.len(),
        messages::replay(items, ms).items.take(items.len() as int) == items,
{
    lemma_history_behind(items, ms);
}

/// What was said in an earlier session is shown as who said it, behind what was said
/// before: what the user said, what the model answered, and a card for each tool that
/// it called. What the system told the model is not shown, nor is an empty text.
pub proof fn law_history_is_shown(
    items: Seq<MsgView>,
    ms: Seq<ChatView>,
    c: Seq<char>,
    id: Option<Seq<char>>,
    call: CallView,
)
    requires
        c.len() > 0,
    ensures
        ({
            let x = messages::replay(items, ms);
            let none = Seq::<CallView>::empty();
            let card = MsgView::Tool(
                CardView {
                    name: call.name,
                    args: call.arguments,
                    ok: None,
                    output: Seq::empty(),
                    started: None,
                    done_secs: None,
                    idle_ms: None,
                    silent: 0,
                    live: Seq::empty(),
                },
            );
            let user = ChatView {
                role: Role::User,
                content: Some(c),
                tool_calls: none,
                tool_call_id: id,
            };
            let answer = ChatView { role: Role::Assistant, ..user };
            let calling = ChatView { tool_calls: none.push(call), ..answer };
            let silent = ChatView { content: None, ..calling };
            let system = ChatView { role: Role::System, ..user };
            let empty = ChatView { content: Some(Seq::empty()), ..user };
            &&& messages::replay(items, ms.push(user)).items == x.items.push(MsgView::User(c))
            &&& messages::replay(items, ms.push(answer)).items == x.items.push(
                MsgView::Assistant(c),
            )
            &&& messages::replay(items, ms.push(calling)).items == x.items.push(
                MsgView::Assistant(c),
            ).push(card)
            &&& messages::replay(items, ms.push(silent)).items == x.items.push(card)
            &&& messages::replay(items, ms.push(system)).items == x.items
            &&& messages::replay(items, ms.push(empty)).items == x.items
        }),
{
    let none = Seq::<CallView>::empty();
    let user = ChatView {
        role: Role::User,
        content: Some(c),
        tool_calls: none,
        tool_call_id: id,
    };
    let answer = ChatView { role: Role::Assistant, ..user };
    let calling = ChatView { tool_calls: none.push(call), ..answer };
    let silent = ChatView { content: None, ..calling };
    let system = ChatView { role: Role::System, ..user };
    let empty = ChatView { content: Some(Seq::empty()), ..user };
    assert(ms.push(user).drop_last() =~= ms);
    assert(ms.push(answer).drop_last() =~= ms);
    assert(ms.push(calling).drop_last() =~= ms);
    assert(ms.push(silent).drop_last() =~= ms);
    assert(ms.push(system).drop_last() =~= ms);
    assert(ms.push(empty).drop_last() =~= ms);
    assert(none.push(call).drop_last() =~= none);
    reveal_with_fuel(messages::with_calls, 2);
}

/// The result of a call is shown on the card of that call, as the next message or
/// behind any text that came between, and a result without a call on a card of its
/// own.
pub proof fn law_results_are_shown(
    items: Seq<MsgView>,
    ms: Seq<ChatView>,
    call: CallView,
    output: Seq<char>,
    said: Seq<char>,
)
    requires
        said.len() > 0,
    ensures
        ({
            let x = messages::replay(items, ms);
            let calling = ChatView {
                role: Role::Assistant,
                content: None,
                tool_calls: Seq::empty().push(call),
                tool_call_id: None,
            };
            let result = ChatView {
                role: Role::Tool,
                content: Some(output),
                tool_calls: Seq::empty(),
                tool_call_id: Some(call.id),
            };
            let other = ChatView {
                role: Role::User,
                content: Some(said),
                tool_calls: Seq::empty(),
                tool_call_id: None,
            };
            let card = MsgView::Tool(
                CardView {
                    name: call.name,
                    args: call.arguments,
                    ok: Some(true),
                    output,
                    started: None,
                    done_secs: None,
                    idle_ms: None,
                    silent: 0,
                    live: Seq::empty(),
                },
            );
            &&& messages::replay(items, ms.push(calling).push(result)).items == x.items.push(card)
            &&& messages::replay(items, ms.push(calling).push(other).push(result)).items
                == x.items.push(card).push(MsgView::User(said))
        }),
{
    let x = messages::replay(items, ms);
    let calling = ChatView {
        role: Role::Assistant,
        content: None,
        tool_calls: Seq::empty().push(call),
        tool_call_id: None,
    };
    let result = ChatView {
        role: Role::Tool,
        content: Some(output),
        tool_calls: Seq::empty(),
        tool_call_id: Some(call.id),
    };
    let other = ChatView {
        role: Role::User,
        content: Some(said),
        tool_calls: Seq::empty(),
        tool_call_id: None,
    };
    assert(Seq::empty().push(call).drop_last() =~= Seq::<CallView>::empty());
    reveal_with_fuel(messages::with_calls, 2);
    assert(ms.push(calling).drop_last() =~= ms);
    assert(ms.push(calling).push(result).drop_last() =~= ms.push(calling));
    assert(ms.push(calling).push(other).drop_last() =~= ms.push(calling));
    assert(ms.push(calling).push(other).push(result).drop_last() =~= ms.push(calling).push(other));
    let y = messages::replay(items, ms.push(calling));
    assert(y == messages::with_call(x, call));
    let z = messages::replay(items, ms.push(calling).push(other));
    assert(z.items == y.items.push(MsgView::User(said)));
    assert(messages::replay(items, ms.push(calling).push(result)).items =~= x.items.push(
        messages::answered(y.items[x.items.len() as int], output),
    ));
    assert(messages::replay(items, ms.push(calling).push(other).push(result)).items
        =~= x.items.push(messages::answered(y.items[x.items.len() as int], output)).push(
        MsgView::User(said),
    ));
}

// ------------------------------------------------------------------------ counts

/// What is counted at the end is counted item by item, in whatever order: each text of
/// the user, each answer, and each tool that went well; among these the shell commands,
/// and the tools that write files.
pub proof fn law_items_are_counted(v: Seq<MsgView>, m: MsgView, w: Counted)
    ensures
        transcript::count_of(v.push(m), Counted::User) == transcript::count_of(v, Counted::User)
            + (if m is User {
            1int
        } else {
            0
        }),
        transcript::count_of(v.push(m), Counted::Assistant) == transcript::count_of(
            v,
            Counted::Assistant,
        ) + (if m is Assistant || m is AssistantStream {
            1int
        } else {
            0
        }),
        transcript::count_of(v.push(m), Counted::Tool) == transcript::count_of(v, Counted::Tool)
            + (if m is Tool && m->Tool_0.ok == Some(true) {
            1int
        } else {
            0
        }),
        transcript::count_of(v.push(m), Counted::Shell) == transcript::count_of(
            v,
            Counted::Shell,
        ) + (if m is Tool && m->Tool_0.ok == Some(true) && m->Tool_0.name
            == "run_shell_command"@ {
            1int
        } else {
            0
        }),
        transcript::count_of(v.push(m), Counted::Write) == transcript::count_of(
            v,
            Counted::Write,
        ) + (if m is Tool && m->Tool_0.ok == Some(true) && (m->Tool_0.name == "write_file"@
            || m->Tool_0.name == "edit"@ || m->Tool_0.name == "skill"@) {
            1int
        } else {
            0
        }),
        transcript::count_of(Seq::<MsgView>::empty(), w) == 0,
{
    assert(v.push(m).drop_last() =~= v);
    reveal_strlit("run_shell_command");
    reveal_strlit("write_file");
    reveal_strlit("edit");
    reveal_strlit("skill");
    assert("run_shell_command"@.len() == 17 && "write_file"@.len() == 10);
    assert("edit"@.len() == 4 && "skill"@.len() == 5);
}

// --------------------------------------------------------------------- arguments

/// A shell command is shown as it is run, and with the directory that it runs in where
/// one was given; arguments without a command are shown as they are, and arguments
/// that are none are not shown.
pub proof fn law_shell_commands_are_shown(
    args: Seq<char>,
    shape: Option<Shape>,
    c: Seq<char>,
    d: Seq<char>,
)
    requires
        c.len() > 0,
        d.len() > 0,
        shape != Some(Shape::Null),
        shape != Some(Shape::Object(0)),
    ensures
        tool_args::command_text(args, shape, Some(c), None) == seq!['$', ' '] + c,
        tool_args::command_text(args, shape, Some(c), Some(Seq::empty())) == seq!['$', ' '] + c,
        tool_args::command_text(args, shape, Some(c), Some(d)) == seq!['$', ' '] + c + "  (cwd: "@
            + d + ")"@,
        tool_args::command_text(args, shape, None, Some(d)) == args,
        tool_args::command_text(args, shape, Some(Seq::empty()), Some(d)) == args,
        tool_args::plain_text(args, shape) == args,
        tool_args::command_text(args, Some(Shape::Null), Some(c), Some(d)).len() == 0,
        tool_args::command_text(args, Some(Shape::Object(0)), Some(c), Some(d)).len() == 0,
        tool_args::plain_text(args, Some(Shape::Null)).len() == 0,
        tool_args::plain_text(args, Some(Shape::Object(0))).len() == 0,
{
    reveal_strlit("$ ");
    assert("$ "@ =~= seq!['$', ' ']);
    assert(seq!['$', ' '] + c + Seq::<char>::empty() =~= seq!['$', ' '] + c);
    assert(seq!['$', ' '] + c + ("  (cwd: "@ + d + ")"@) =~= seq!['$', ' '] + c + "  (cwd: "@ + d
        + ")"@);
}

/// The arguments of a shell command are read for its command and its directory, and
/// those of every other tool are shown without the white space around them.
pub proof fn law_arguments_are_shown(name: Seq<char>, a: Seq<char>, t: Seq<char>, b: Seq<char>)
    requires
        text_laws::blank(a),
        text_laws::tight(t),
        t.len() > 0,
        text_laws::blank(b),
    ensures
        name == "run_shell_command"@ ==> tool_args::summary_of(name, a + t + b)
            == tool_args::command_text(
            t,
            tool_args::json_shape(t),
            tool_args::json_text(t, "command"@),
            tool_args::json_text(t, "cwd"@),
        ),
        name != "run_shell_command"@ ==> tool_args::summary_of(name, a + t + b)
            == tool_args::plain_text(t, tool_args::json_shape(t)),
{
    text_laws::law_trimming_takes_white_space(a, t, b);
}

/// A result that no call waits for gets a card of its own, behind all other items: under
/// the name of its call where that was declared, and under a general one where it was
/// not.
pub proof fn law_loose_results_are_shown(r: Replay, id: Seq<char>, output: Seq<char>)
    requires
        !r.pending.dom().contains(id),
    ensures
        ({
            let card = CardView {
                name: "工具结果"@,
                args: Seq::empty(),
                ok: Some(true),
                output,
                started: None,
                done_secs: None,
                idle_ms: None,
                silent: 0,
                live: Seq::empty(),
            };
            let m = ChatView {
                role: Role::Tool,
                content: Some(output),
                tool_calls: Seq::empty(),
                tool_call_id: Some(id),
            };
            let loose = ChatView { tool_call_id: None, ..m };
            &&& r.names.dom().contains(id) ==> messages::replayed(r, m).items == r.items.push(
                MsgView::Tool(CardView { name: r.names[id], ..card }),
            )
            &&& !r.names.dom().contains(id) ==> messages::replayed(r, m).items == r.items.push(
                MsgView::Tool(card),
            )
            &&& messages::replayed(r, loose).items == r.items.push(MsgView::Tool(card))
        }),
{
}

/// What comes in is counted by estimate until the server has counted it: each part adds
/// its own estimate.
pub proof fn law_parts_are_estimated(s: TalkView, t: Seq<char>, now: u64)
    requires
        transcript::can_take(s, EventView::TextDelta(t)),
    ensures
        transcript::after(s, EventView::TextDelta(t), now).stats.round_est == s.stats.round_est
            + crate::meter::token_estimate(t),
        transcript::after(s, EventView::ReasoningDelta(t), now).stats.round_est
            == s.stats.round_est + crate::meter::token_estimate(t),
{
}

} // verus!
