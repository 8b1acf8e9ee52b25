//! The conversation as it is shown, and what the events of the session do to it.
use crate::editor;
use crate::live;
use crate::messages;
use crate::messages::{Card, CardView, ChatMessage, ChatView, MsgItem, MsgView};
use crate::meter;
use crate::text;
use vstd::prelude::*;

verus! {

broadcast use crate::messages::group_msg_views;

// ----------------------------------------------------------------------- types

/// What keeps the session busy.
#[derive(Clone, Copy, Debug, PartialEq, Eq, Structural)]
pub enum BusyKind {
    Work,
    Compacting,
}

/// Tokens: what was read and written in this session, as the server counts it; what
/// the last request read, which is what the context holds; and an estimate of what
/// is being written, until the server has counted it.
#[derive(Clone, Copy, Debug, PartialEq, Eq, Structural)]
pub struct TokenStats {
    pub input: u64,
    pub output: u64,
    pub last_prompt: u64,
    pub round_est: u64,
}

impl TokenStats {
    /// Nothing counted.
    pub fn new() -> (r: TokenStats)
        ensures
            r == (TokenStats { input: 0, output: 0, last_prompt: 0, round_est: 0 }),
    {
        TokenStats { input: 0, output: 0, last_prompt: 0, round_est: 0 }
    }
}

/// A permission that is asked for.
#[derive(Debug)]
pub struct PermissionPrompt {
    pub title: String,
    pub body: String,
}

/// What a permission holds.
#[verifier::ext_equal]
pub struct PromptView {
    pub title: Seq<char>,
    pub body: Seq<char>,
}

impl View for PermissionPrompt {
    type V = PromptView;

    open spec fn view(&self) -> PromptView {
        PromptView { title: self.title@, body: self.body@ }
    }
}

/// The conversation as it is shown.
#[derive(Debug)]
pub struct Transcript {
    pub items: Vec<MsgItem>,
    pub busy: bool,
    pub busy_kind: BusyKind,
    pub permission: Option<PermissionPrompt>,
    pub session_id: String,
    pub persona: String,
    pub stats: TokenStats,
}

/// What the conversation holds.
#[verifier::ext_equal]
pub struct TalkView {
    pub items: Seq<MsgView>,
    pub busy: bool,
    pub busy_kind: BusyKind,
    pub permission: Option<PromptView>,
    pub session_id: Seq<char>,
    pub persona: Seq<char>,
    pub stats: TokenStats,
}

/// What a question of the session holds, where there is one.
pub open spec fn prompt_view(o: Option<PermissionPrompt>) -> Option<PromptView> {
    match o {
        Some(p) => Some(p@),
        None => None,
    }
}

impl View for Transcript {
    type V = TalkView;

    open spec fn view(&self) -> TalkView {
        TalkView {
            items: messages::msg_views(self.items@),
            busy: self.busy,
            busy_kind: self.busy_kind,
            permission: prompt_view(self.permission),
            session_id: self.session_id@,
            persona: self.persona@,
            stats: self.stats,
        }
    }
}

/// An event of the session.
#[derive(Debug)]
pub enum SessionEvent {
    TurnStarted,
    ReasoningDelta(String),
    TextDelta(String),
    /// What the server counted for a request and its answer.
    Usage { prompt: u64, completion: u64 },
    ToolStarted { name: String, args: String, idle_ms: Option<u64> },
    ToolFinished { name: String, ok: bool, output: String },
    ToolOutputDelta { name: String, delta: String },
    ToolSilentAlert { name: String, level: u8 },
    PersonaChanged { name: String },
    PermissionRequest { title: String, body: String },
    Notice(String),
    ContextCleared,
    CompactionStarted,
    ContextCompacted { removed: usize, summary: String, kept: Vec<ChatMessage> },
    SessionInfo { id: String },
    HistoryLoaded { count: usize, messages: Vec<ChatMessage> },
    TurnFinished { text: String, truncated: bool },
}

/// What an event holds.
pub enum EventView {
    TurnStarted,
    ReasoningDelta(Seq<char>),
    TextDelta(Seq<char>),
    Usage { prompt: u64, completion: u64 },
    ToolStarted { name: Seq<char>, args: Seq<char>, idle_ms: Option<u64> },
    ToolFinished { name: Seq<char>, ok: bool, output: Seq<char> },
    ToolOutputDelta { name: Seq<char>, delta: Seq<char> },
    ToolSilentAlert { name: Seq<char>, level: u8 },
    PersonaChanged { name: Seq<char> },
    PermissionRequest { title: Seq<char>, body: Seq<char> },
    Notice(Seq<char>),
    ContextCleared,
    CompactionStarted,
    ContextCompacted { removed: nat, summary: Seq<char>, kept: Seq<ChatView> },
    SessionInfo { id: Seq<char> },
    HistoryLoaded { count: nat, messages: Seq<ChatView> },
    TurnFinished { text: Seq<char>, truncated: bool },
}

impl View for SessionEvent {
    type V = EventView;

    open spec fn view(&self) -> EventView {
        match self {
            SessionEvent::TurnStarted => EventView::TurnStarted,
            SessionEvent::ReasoningDelta(t) => EventView::ReasoningDelta(t@),
            SessionEvent::TextDelta(t) => EventView::TextDelta(t@),
            SessionEvent::Usage { prompt, completion } => EventView::Usage {
                prompt: *prompt,
                completion: *completion,
            },
            SessionEvent::ToolStarted { name, args, idle_ms } => EventView::ToolStarted {
                name: name@,
                args: args@,
                idle_ms: *idle_ms,
            },
            SessionEvent::ToolFinished { name, ok, output } => EventView::ToolFinished {
                name: name@,
                ok: *ok,
                output: output@,
            },
            SessionEvent::ToolOutputDelta { name, delta } => EventView::ToolOutputDelta {
                name: name@,
                delta: delta@,
            },
            SessionEvent::ToolSilentAlert { name, level } => EventView::ToolSilentAlert {
                name: name@,
                level: *level,
            },
            SessionEvent::PersonaChanged { name } => EventView::PersonaChanged { name: name@ },
            SessionEvent::PermissionRequest { title, body } => EventView::PermissionRequest {
                title: title@,
                body: body@,
            },
            SessionEvent::Notice(t) => EventView::Notice(t@),
            SessionEvent::ContextCleared => EventView::ContextCleared,
            SessionEvent::CompactionStarted => EventView::CompactionStarted,
            SessionEvent::ContextCompacted { removed, summary, kept } => {
                EventView::ContextCompacted {
                    removed: *removed as nat,
                    summary: summary@,
                    kept: messages::chat_views(kept@),
                }
            },
            SessionEvent::SessionInfo { id } => EventView::SessionInfo { id: id@ },
            SessionEvent::HistoryLoaded { count, messages } => EventView::HistoryLoaded {
                count: *count as nat,
                messages: messages::chat_views(messages@),
            },
            SessionEvent::TurnFinished { text, truncated } => EventView::TurnFinished {
                text: text@,
                truncated: *truncated,
            },
        }
    }
}

// ---------------------------------------------------------------------- events

/// Whether the counters can take what an event adds.
pub open spec fn can_take(s: TalkView, e: EventView) -> bool {
    match e {
        EventView::ReasoningDelta(t) => s.stats.round_est + meter::token_estimate(t) <= u64::MAX,
        EventView::TextDelta(t) => s.stats.round_est + meter::token_estimate(t) <= u64::MAX,
        EventView::Usage { prompt, completion } => s.stats.input + prompt <= u64::MAX
            && s.stats.output + completion <= u64::MAX,
        _ => true,
    }
}

/// The last item at or before `i - 1` that is the card of the given tool; of one that
/// runs, where that is asked for. Minus one where there is none.
pub open spec fn last_card(items: Seq<MsgView>, name: Seq<char>, running: bool, i: int) -> int
    decreases i,
{
    if i <= 0 {
        -1
    } else {
        match items[i - 1] {
            MsgView::Tool(c) => if c.name == name && (!running || c.ok is None) {
                i - 1
            } else {
                last_card(items, name, running, i - 1)
            },
            _ => last_card(items, name, running, i - 1),
        }
    }
}

/// The card at a place of a list.
pub open spec fn card_at(items: Seq<MsgView>, i: int) -> CardView {
    items[i]->Tool_0
}

/// A list with another card at a place.
pub open spec fn with_card(items: Seq<MsgView>, i: int, c: CardView) -> Seq<MsgView> {
    items.update(i, MsgView::Tool(c))
}

/// The estimate with what a text adds to it.
pub open spec fn estimated(s: TokenStats, t: Seq<char>) -> TokenStats {
    TokenStats { round_est: (s.round_est + meter::token_estimate(t)) as u64, ..s }
}

/// A thought goes on, or a new one begins.
pub open spec fn with_thought(items: Seq<MsgView>, t: Seq<char>) -> Seq<MsgView> {
    if items.len() > 0 && items.last() is Reasoning {
        items.drop_last().push(MsgView::Reasoning(items.last()->Reasoning_0 + t))
    } else {
        items.push(MsgView::Reasoning(t))
    }
}

/// An answer goes on, or a new one begins.
pub open spec fn with_answer(items: Seq<MsgView>, t: Seq<char>) -> Seq<MsgView> {
    if items.len() > 0 && items.last() is AssistantStream {
        items.drop_last().push(MsgView::AssistantStream(items.last()->AssistantStream_0 + t))
    } else {
        items.push(MsgView::AssistantStream(t))
    }
}

/// How many whole seconds lie between two times.
pub open spec fn seconds(from: u64, to: u64) -> u64 {
    if to >= from {
        ((to - from) / 1000) as u64
    } else {
        0
    }
}

/// The card of a tool that is done: what it ran is kept, and what it printed while it
/// ran is dropped.
pub open spec fn finished(c: CardView, ok: bool, output: Seq<char>, now: u64) -> CardView {
    CardView {
        ok: Some(ok),
        output,
        live: Seq::empty(),
        done_secs: match c.started {
            Some(t) => Some(seconds(t, now)),
            None => c.done_secs,
        },
        ..c
    }
}

/// What a turn leaves of its answer.
pub open spec fn with_end(items: Seq<MsgView>, t: Seq<char>, truncated: bool) -> Seq<MsgView> {
    if t.len() == 0 {
        items
    } else if items.len() > 0 && items.last() is AssistantStream {
        items.drop_last().push(
            MsgView::AssistantStream(
                items.last()->AssistantStream_0 + (if truncated {
                    "\n[⚠ 未完成]"@
                } else {
                    ""@
                }),
            ),
        )
    } else {
        items.push(
            MsgView::Assistant(
                if truncated {
                    "[⚠ 未完成] "@ + t
                } else {
                    t
                },
            ),
        )
    }
}

/// What is shown once the context was compacted: a summary, and what was kept.
pub open spec fn compacted(removed: nat, summary: Seq<char>, kept: Seq<ChatView>) -> Seq<MsgView> {
    let head = Seq::<MsgView>::empty().push(
        MsgView::Notice(
            "✔ 上下文已压缩:此前 "@ + text::decimal(removed) + " 条旧消息收敛为一段摘要"@,
        ),
    ).push(MsgView::CommandOutput(summary));
    if kept.len() == 0 {
        head
    } else {
        messages::replay(
            head.push(
                MsgView::Notice("保留最近 "@ + text::decimal(kept.len()) + " 条消息:"@),
            ),
            kept,
        ).items
    }
}

/// What is shown once an earlier session was loaded: its messages.
pub open spec fn loaded(count: nat, ms: Seq<ChatView>) -> Seq<MsgView> {
    messages::replay(
        Seq::<MsgView>::empty().push(
            MsgView::Notice(
                "━━━ 已恢复历史会话("@ + text::decimal(count) + " 条消息),内容如下 ━━━"@,
            ),
        ),
        ms,
    ).items
}

/// The conversation after an event, at the given time.
pub open spec fn after(s: TalkView, e: EventView, now: u64) -> TalkView {
    let n = s.items.len() as int;
    match e {
        EventView::TurnStarted => TalkView {
            busy: true,
            busy_kind: BusyKind::Work,
            stats: TokenStats { round_est: 0, ..s.stats },
            ..s
        },
        EventView::ReasoningDelta(t) => TalkView {
            stats: estimated(s.stats, t),
            items: with_thought(s.items, t),
            ..s
        },
        EventView::TextDelta(t) => TalkView {
            stats: estimated(s.stats, t),
            items: with_answer(s.items, t),
            ..s
        },
        EventView::Usage { prompt, completion } => TalkView {
            stats: TokenStats {
                input: (s.stats.input + prompt) as u64,
                output: (s.stats.output + completion) as u64,
                last_prompt: prompt,
                round_est: 0,
            },
            ..s
        },
        EventView::ToolStarted { name, args, idle_ms } => TalkView {
            items: s.items.push(
                MsgView::Tool(
                    CardView { started: Some(now), idle_ms, ..messages::open_card(name, args) },
                ),
            ),
            ..s
        },
        EventView::ToolFinished { name, ok, output } => {
            let i = last_card(s.items, name, false, n);
            if i < 0 {
                s
            } else {
                TalkView {
                    items: with_card(s.items, i, finished(card_at(s.items, i), ok, output, now)),
                    ..s
                }
            }
        },
        EventView::ToolOutputDelta { name, delta } => {
            let i = last_card(s.items, name, true, n);
            if i < 0 {
                s
            } else {
                let c = card_at(s.items, i);
                TalkView {
                    items: with_card(
                        s.items,
                        i,
                        CardView { live: live::capped(c.live + delta), ..c },
                    ),
                    ..s
                }
            }
        },
        EventView::ToolSilentAlert { name, level } => {
            let i = last_card(s.items, name, true, n);
            if i < 0 {
                s
            } else {
                TalkView {
                    items: with_card(
                        s.items,
                        i,
                        CardView { silent: level, ..card_at(s.items, i) },
                    ),
                    ..s
                }
            }
        },
        EventView::PersonaChanged { name } => TalkView { persona: name, ..s },
        EventView::PermissionRequest { title, body } => TalkView {
            permission: Some(PromptView { title, body }),
            ..s
        },
        EventView::Notice(t) => TalkView { items: s.items.push(MsgView::Notice(t)), ..s },
        EventView::ContextCleared => TalkView {
            items: Seq::<MsgView>::empty().push(
                MsgView::Notice("✔ 已清空会话上下文与历史文件,可重新开始。"@),
            ),
            stats: TokenStats { last_prompt: 0, ..s.stats },
            ..s
        },
        EventView::CompactionStarted => TalkView {
            busy: true,
            busy_kind: BusyKind::Compacting,
            ..s
        },
        EventView::ContextCompacted { removed, summary, kept } => TalkView {
            busy: false,
            busy_kind: BusyKind::Work,
            items: compacted(removed, summary, kept),
            stats: TokenStats { last_prompt: 0, ..s.stats },
            ..s
        },
        EventView::SessionInfo { id } => TalkView { session_id: id, ..s },
        EventView::HistoryLoaded { count, messages } => TalkView {
            items: loaded(count, messages),
            ..s
        },
        EventView::TurnFinished { text, truncated } => TalkView {
            busy: false,
            busy_kind: BusyKind::Work,
            stats: TokenStats { round_est: 0, ..s.stats },
            items: with_end(s.items, text, truncated),
            permission: None,
            ..s
        },
    }
}

/// What searching for a card finds.
pub proof fn lemma_last_card(items: Seq<MsgView>, name: Seq<char>, running: bool, i: int)
    requires
        0 <= i <= items.len(),
    ensures
        -1 <= last_card(items, name, running, i) < i,
        last_card(items, name, running, i) >= 0 ==> {
            let m = items[last_card(items, name, running, i)];
            m is Tool && m->Tool_0.name == name && (running ==> m->Tool_0.ok is None)
        },
    decreases i,
{
    if i > 0 {
        lemma_last_card(items, name, running, i - 1);
    }
}

fn find_card(items: &Vec<MsgItem>, name: &str, running: bool) -> (r: Option<usize>)
    ensures
        match r {
            Some(i) => i < items@.len() && i == last_card(
                messages::msg_views(items@),
                name@,
                running,
                items@.len() as int,
            ),
            None => last_card(
                messages::msg_views(items@),
                name@,
                running,
                items@.len() as int,
            ) < 0,
        },
{
    let ghost vs = messages::msg_views(items@);
    let mut i: usize = items.len();
    while i > 0
        invariant
            vs == messages::msg_views(items@),
            vs.len() == items@.len(),
            i <= items@.len(),
            last_card(vs, name@, running, i as int) == last_card(
                vs,
                name@,
                running,
                items@.len() as int,
            ),
        decreases i,
    {
        proof {
            messages::lemma_msg_views_index(items@, i - 1);
        }
        if let MsgItem::Tool(c) = &items[i - 1] {
            if text::same(c.name.as_str(), name) && (!running || c.ok.is_none()) {
                return Some(i - 1);
            }
        }
        i -= 1;
    }
    None
}

fn card_copy(items: &Vec<MsgItem>, i: usize) -> (r: Card)
    requires
        i < items@.len(),
        messages::msg_views(items@)[i as int] is Tool,
    ensures
        r@ == card_at(messages::msg_views(items@), i as int),
{
    match &items[i] {
        MsgItem::Tool(c) => messages::copy_card(c),
        _ => messages::new_card(String::new(), String::new()),
    }
}

fn extend_last(items: &mut Vec<MsgItem>, t: &str, thought: bool)
    ensures
        messages::msg_views(final(items)@) == (if thought {
            with_thought(messages::msg_views(old(items)@), t@)
        } else {
            with_answer(messages::msg_views(old(items)@), t@)
        }),
{
    let ghost vs = messages::msg_views(items@);
    let n: usize = items.len();
    if n > 0 {
        let joined = match &items[n - 1] {
            MsgItem::Reasoning(r) => if thought {
                Some(text::cat2(r.as_str(), t))
            } else {
                None
            },
            MsgItem::AssistantStream(r) => if thought {
                None
            } else {
                Some(text::cat2(r.as_str(), t))
            },
            _ => None,
        };
        if let Some(j) = joined {
            let m = if thought {
                MsgItem::Reasoning(j)
            } else {
                MsgItem::AssistantStream(j)
            };
            proof {
                assert(vs.update(n - 1, m@) =~= vs.drop_last().push(m@));
            }
            messages::set_item(items, n - 1, m);
            return;
        }
    }
    let m = if thought {
        MsgItem::Reasoning(text::copy(t))
    } else {
        MsgItem::AssistantStream(text::copy(t))
    };
    messages::push_item(items, m);
}

fn end_turn(items: &mut Vec<MsgItem>, t: String, truncated: bool)
    ensures
        messages::msg_views(final(items)@) == with_end(
            messages::msg_views(old(items)@),
            t@,
            truncated,
        ),
{
    if t.as_str().is_empty() {
        return;
    }
    let ghost vs = messages::msg_views(items@);
    let n: usize = items.len();
    if n > 0 {
        if let MsgItem::AssistantStream(r) = &items[n - 1] {
            let tail = if truncated {
                "\n[⚠ 未完成]"
            } else {
                ""
            };
            let m = MsgItem::AssistantStream(text::cat2(r.as_str(), tail));
            proof {
                assert(vs.update(n - 1, m@) =~= vs.drop_last().push(m@));
            }
            messages::set_item(items, n - 1, m);
            return;
        }
    }
    let m = if truncated {
        text::cat2("[⚠ 未完成] ", t.as_str())
    } else {
        t
    };
    messages::push_item(items, MsgItem::Assistant(m));
}

fn show_compacted(removed: usize, summary: String, kept: &Vec<ChatMessage>) -> (items: Vec<MsgItem>)
    ensures
        messages::msg_views(items@) == compacted(
            removed as nat,
            summary@,
            messages::chat_views(kept@),
        ),
{
    let mut items = messages::no_items();
    messages::push_notice(
        &mut items,
        text::cat3(
            "✔ 上下文已压缩:此前 ",
            text::dec(removed).as_str(),
            " 条旧消息收敛为一段摘要",
        ),
    );
    messages::push_output(&mut items, summary);
    proof {
        assert(messages::chat_views(kept@).len() == kept@.len());
    }
    if kept.len() > 0 {
        messages::push_notice(
            &mut items,
            text::cat3("保留最近 ", text::dec(kept.len()).as_str(), " 条消息:"),
        );
        messages::push_history(&mut items, kept);
    }
    items
}

fn show_loaded(count: usize, ms: &Vec<ChatMessage>) -> (items: Vec<MsgItem>)
    ensures
        messages::msg_views(items@) == loaded(count as nat, messages::chat_views(ms@)),
{
    let mut items = messages::no_items();
    messages::push_notice(
        &mut items,
        text::cat3(
            "━━━ 已恢复历史会话(",
            text::dec(count).as_str(),
            " 条消息),内容如下 ━━━",
        ),
    );
    messages::push_history(&mut items, ms);
    items
}

impl Transcript {
    /// A conversation that shows the given items.
    pub fn new(items: Vec<MsgItem>, persona: String) -> (r: Transcript)
        ensures
            r@ == (TalkView {
                items: messages::msg_views(items@),
                busy: false,
                busy_kind: BusyKind::Work,
                permission: None,
                session_id: Seq::empty(),
                persona: persona@,
                stats: TokenStats { input: 0, output: 0, last_prompt: 0, round_est: 0 },
            }),
    {
        Transcript {
            items,
            busy: false,
            busy_kind: BusyKind::Work,
            permission: None,
            session_id: String::new(),
            persona,
            stats: TokenStats::new(),
        }
    }

    /// Shows a notice.
    pub fn notice(&mut self, t: String)
        ensures
            final(self)@ == (TalkView {
                items: old(self)@.items.push(MsgView::Notice(t@)),
                ..old(self)@
            }),
    {
        messages::push_notice(&mut self.items, t);
    }

    fn estimate(&mut self, t: &str)
        requires
            old(self).stats.round_est + meter::token_estimate(t@) <= u64::MAX,
        ensures
            final(self)@ == (TalkView { stats: estimated(old(self).stats, t@), ..old(self)@ }),
    {
        self.stats.round_est = self.stats.round_est + meter::est_tokens(t);
    }

    fn on_tool(&mut self, e: SessionEvent, now: u64)
        requires
            e is ToolStarted || e is ToolFinished || e is ToolOutputDelta || e is ToolSilentAlert,
        ensures
            final(self)@ == after(old(self)@, e@, now),
    {
        let ghost vs = messages::msg_views(self.items@);
        match e {
            SessionEvent::ToolStarted { name, args, idle_ms } => {
                let mut c = messages::new_card(name, args);
                c.started = Some(now);
                c.idle_ms = idle_ms;
                messages::push_item(&mut self.items, MsgItem::Tool(c));
            },
            SessionEvent::ToolFinished { name, ok, output } => {
                proof {
                    lemma_last_card(vs, name@, false, vs.len() as int);
                }
                if let Some(i) = find_card(&self.items, name.as_str(), false) {
                    let mut c = card_copy(&self.items, i);
                    c.ok = Some(ok);
                    c.output = output;
                    c.live = String::new();
                    if let Some(t) = c.started {
                        c.done_secs = Some(
                            if now >= t {
                                (now - t) / 1000
                            } else {
                                0
                            },
                        );
                    }
                    messages::set_item(&mut self.items, i, MsgItem::Tool(c));
                }
            },
            SessionEvent::ToolOutputDelta { name, delta } => {
                proof {
                    lemma_last_card(vs, name@, true, vs.len() as int);
                }
                if let Some(i) = find_card(&self.items, name.as_str(), true) {
                    let mut c = card_copy(&self.items, i);
                    let mut t = text::cat2(c.live.as_str(), delta.as_str());
                    live::cap_live_tail(&mut t);
                    c.live = t;
                    messages::set_item(&mut self.items, i, MsgItem::Tool(c));
                }
            },
            SessionEvent::ToolSilentAlert { name, level } => {
                proof {
                    lemma_last_card(vs, name@, true, vs.len() as int);
                }
                if let Some(i) = find_card(&self.items, name.as_str(), true) {
                    let mut c = card_copy(&self.items, i);
                    c.silent = level;
                    messages::set_item(&mut self.items, i, MsgItem::Tool(c));
                }
            },
            _ => {},
        }
    }

    fn on_context(&mut self, e: SessionEvent)
        requires
            e is ContextCleared || e is CompactionStarted || e is ContextCompacted
                || e is HistoryLoaded,
        ensures
            final(self)@ == after(old(self)@, e@, 0),
    {
        match e {
            SessionEvent::ContextCleared => {
                let mut items = messages::no_items();
                messages::push_notice(
                    &mut items,
                    text::copy("✔ 已清空会话上下文与历史文件,可重新开始。"),
                );
                self.items = items;
                self.stats.last_prompt = 0;
            },
            SessionEvent::CompactionStarted => {
                self.busy = true;
                self.busy_kind = BusyKind::Compacting;
            },
            SessionEvent::ContextCompacted { removed, summary, kept } => {
                self.busy = false;
                self.busy_kind = BusyKind::Work;
                self.items = show_compacted(removed, summary, &kept);
                self.stats.last_prompt = 0;
            },
            SessionEvent::HistoryLoaded { count, messages } => {
                self.items = show_loaded(count, &messages);
            },
            _ => {},
        }
    }

    /// What an event of the session does to the conversation, at the given time in
    /// milliseconds.
    pub fn handle_session_event(&mut self, e: SessionEvent, now: u64)
        requires
            can_take(old(self)@, e@),
        ensures
            final(self)@ == after(old(self)@, e@, now),
    {
        match e {
            SessionEvent::TurnStarted => {
                self.busy = true;
                self.busy_kind = BusyKind::Work;
                self.stats.round_est = 0;
            },
            SessionEvent::ReasoningDelta(t) => {
                self.estimate(t.as_str());
                extend_last(&mut self.items, t.as_str(), true);
            },
            SessionEvent::TextDelta(t) => {
                self.estimate(t.as_str());
                extend_last(&mut self.items, t.as_str(), false);
            },
            SessionEvent::Usage { prompt, completion } => {
                self.stats = TokenStats {
                    input: self.stats.input + prompt,
                    output: self.stats.output + completion,
                    last_prompt: prompt,
                    round_est: 0,
                };
            },
            SessionEvent::PersonaChanged { name } => {
                self.persona = name;
            },
            SessionEvent::PermissionRequest { title, body } => {
                self.permission = Some(PermissionPrompt { title, body });
            },
            SessionEvent::Notice(t) => {
                self.notice(t);
            },
            SessionEvent::SessionInfo { id } => {
                self.session_id = id;
            },
            SessionEvent::TurnFinished { text, truncated } => {
                self.busy = false;
                self.busy_kind = BusyKind::Work;
                self.stats.round_est = 0;
                end_turn(&mut self.items, text, truncated);
                self.permission = None;
            },
            SessionEvent::ToolStarted { name, args, idle_ms } => {
                self.on_tool(SessionEvent::ToolStarted { name, args, idle_ms }, now);
            },
            SessionEvent::ToolFinished { name, ok, output } => {
                self.on_tool(SessionEvent::ToolFinished { name, ok, output }, now);
            },
            SessionEvent::ToolOutputDelta { name, delta } => {
                self.on_tool(SessionEvent::ToolOutputDelta { name, delta }, now);
            },
            SessionEvent::ToolSilentAlert { name, level } => {
                self.on_tool(SessionEvent::ToolSilentAlert { name, level }, now);
            },
            SessionEvent::ContextCleared => {
                self.on_context(SessionEvent::ContextCleared);
            },
            SessionEvent::CompactionStarted => {
                self.on_context(SessionEvent::CompactionStarted);
            },
            SessionEvent::ContextCompacted { removed, summary, kept } => {
                self.on_context(SessionEvent::ContextCompacted { removed, summary, kept });
            },
            SessionEvent::HistoryLoaded { count, messages } => {
                self.on_context(SessionEvent::HistoryLoaded { count, messages });
            },
        }
    }
}

// -------------------------------------------------------------------- the end

/// What a session came to, for the end of the program.
#[derive(Debug)]
pub struct ExitStats {
    pub session_id: String,
    /// Where the session was written to, if it was.
    pub history: Option<String>,
    pub uptime_secs: u64,
    pub user_msgs: u32,
    pub assistant_msgs: u32,
    pub tool_calls: u32,
    pub shell_calls: u32,
    pub file_writes: u32,
    pub tokens_in: u64,
    pub tokens_out: u64,
    pub undo_snapshots: usize,
}

/// What is counted of the items.
#[derive(Clone, Copy, Debug, PartialEq, Eq, Structural)]
pub enum Counted {
    User,
    Assistant,
    Tool,
    Shell,
    Write,
}

/// Whether an item counts: of the tools, those that went well.
pub open spec fn counts(m: MsgView, what: Counted) -> bool {
    match m {
        MsgView::User(_) => what == Counted::User,
        MsgView::Assistant(_) => what == Counted::Assistant,
        MsgView::AssistantStream(_) => what == Counted::Assistant,
        MsgView::Tool(c) => c.ok == Some(true) && match what {
            Counted::Tool => true,
            Counted::Shell => c.name == "run_shell_command"@,
            Counted::Write => c.name != "run_shell_command"@ && (c.name == "write_file"@ || c.name
                == "edit"@ || c.name == "skill"@),
            _ => false,
        },
        _ => false,
    }
}

/// How many items count.
pub open spec fn count_of(items: Seq<MsgView>, what: Counted) -> nat
    decreases items.len(),
{
    if items.len() == 0 {
        0
    } else {
        count_of(items.drop_last(), what) + (if counts(items.last(), what) {
            1nat
        } else {
            0nat
        })
    }
}

fn item_counts(m: &MsgItem, what: Counted) -> (r: bool)
    ensures
        r == counts(m@, what),
{
    match m {
        MsgItem::User(_) => what == Counted::User,
        MsgItem::Assistant(_) => what == Counted::Assistant,
        MsgItem::AssistantStream(_) => what == Counted::Assistant,
        MsgItem::Tool(c) => {
            let good = match c.ok {
                Some(b) => b,
                None => false,
            };
            let name = c.name.as_str();
            let shell = text::same(name, "run_shell_command");
            good && match what {
                Counted::Tool => true,
                Counted::Shell => shell,
                Counted::Write => !shell && (text::same(name, "write_file") || text::same(
                    name,
                    "edit",
                ) || text::same(name, "skill")),
                _ => false,
            }
        },
        _ => false,
    }
}

fn count_items(items: &Vec<MsgItem>, what: Counted) -> (r: u32)
    requires
        items@.len() <= u32::MAX,
    ensures
        r == count_of(messages::msg_views(items@), what),
{
    let ghost vs = messages::msg_views(items@);
    let mut n: u32 = 0;
    let mut i: usize = 0;
    proof {
        assert(vs.take(0) =~= Seq::<MsgView>::empty());
    }
    while i < items.len()
        invariant
            items@.len() <= u32::MAX,
            vs == messages::msg_views(items@),
            vs.len() == items@.len(),
            i <= items@.len(),
            n <= i,
            n == count_of(vs.take(i as int), what),
        decreases items@.len() - i,
    {
        proof {
            assert(vs.take(i + 1).drop_last() =~= vs.take(i as int));
            messages::lemma_msg_views_index(items@, i as int);
        }
        if item_counts(&items[i], what) {
            n += 1;
        }
        i += 1;
    }
    proof {
        assert(vs.take(i as int) =~= vs);
    }
    n
}

/// What the session came to: `written` is the file that it was found in, and `undo`
/// how many snapshots were found for it.
pub fn collect_exit_stats(
    items: &Vec<MsgItem>,
    session_id: &str,
    tokens: &TokenStats,
    uptime_secs: u64,
    written: Option<String>,
    undo: usize,
) -> (r: ExitStats)
    requires
        items@.len() <= u32::MAX,
    ensures
        ({
            let vs = messages::msg_views(items@);
            &&& r.session_id@ == session_id@
            &&& r.history == (if session_id@.len() == 0 {
                None
            } else {
                written
            })
            &&& r.uptime_secs == uptime_secs
            &&& r.user_msgs == count_of(vs, Counted::User)
            &&& r.assistant_msgs == count_of(vs, Counted::Assistant)
            &&& r.tool_calls == count_of(vs, Counted::Tool)
            &&& r.shell_calls == count_of(vs, Counted::Shell)
            &&& r.file_writes == count_of(vs, Counted::Write)
            &&& r.tokens_in == tokens.input
            &&& r.tokens_out == tokens.output
            &&& r.undo_snapshots == (if session_id@.len() == 0 {
                0
            } else {
                undo
            })
        }),
{
    let named = !session_id.is_empty();
    ExitStats {
        session_id: text::copy(session_id),
        history: if named {
            written
        } else {
            None
        },
        uptime_secs,
        user_msgs: count_items(items, Counted::User),
        assistant_msgs: count_items(items, Counted::Assistant),
        tool_calls: count_items(items, Counted::Tool),
        shell_calls: count_items(items, Counted::Shell),
        file_writes: count_items(items, Counted::Write),
        tokens_in: tokens.input,
        tokens_out: tokens.output,
        undo_snapshots: if named {
            undo
        } else {
            0
        },
    }
}

// ------------------------------------------------------------------------ laws

/// The conversation after events, each at its time.
pub open spec fn after_all(s: TalkView, es: Seq<(EventView, u64)>) -> TalkView
    decreases es.len(),
{
    if es.len() == 0 {
        s
    } else {
        after(after_all(s, es.drop_last()), es.last().0, es.last().1)
    }
}

/// Whether the counters can take what each of the events adds.
pub open spec fn can_take_all(s: TalkView, es: Seq<(EventView, u64)>) -> bool
    decreases es.len(),
{
    es.len() > 0 ==> can_take_all(s, es.drop_last()) && can_take(
        after_all(s, es.drop_last()),
        es.last().0,
    )
}

/// What the server counted over events: what was read, and what was written.
pub open spec fn used(es: Seq<(EventView, u64)>) -> (int, int)
    decreases es.len(),
{
    if es.len() == 0 {
        (0, 0)
    } else {
        let u = used(es.drop_last());
        match es.last().0 {
            EventView::Usage { prompt, completion } => (u.0 + prompt, u.1 + completion),
            _ => u,
        }
    }
}

/// The totals are the sums of what the server counted, however the events follow each
/// other; estimates never enter them.
pub proof fn law_totals_are_sums(s: TalkView, es: Seq<(EventView, u64)>)
    requires
        can_take_all(s, es),
    ensures
        after_all(s, es).stats.input == s.stats.input + used(es).0,
        after_all(s, es).stats.output == s.stats.output + used(es).1,
    decreases es.len(),
{
    if es.len() > 0 {
        law_totals_are_sums(s, es.drop_last());
    }
}

/// Once the server has counted an answer, or the turn is over, nothing is estimated.
pub proof fn law_estimate_is_settled(s: TalkView, e: EventView, now: u64)
    requires
        e is Usage || e is TurnFinished || e is TurnStarted,
    ensures
        after(s, e, now).stats.round_est == 0,
{
}

/// The end of a turn leaves nothing busy and no permission to be given.
pub proof fn law_turn_end_frees(s: TalkView, t: Seq<char>, truncated: bool, now: u64)
    ensures
        ({
            let r = after(s, EventView::TurnFinished { text: t, truncated }, now);
            !r.busy && r.busy_kind == BusyKind::Work && r.permission is None
        }),
{
}

/// What comes for a tool while it runs touches no card that is done, and no item but
/// cards.
pub proof fn law_finished_cards_stay(s: TalkView, e: EventView, now: u64, i: int)
    requires
        e is ToolOutputDelta || e is ToolSilentAlert,
        0 <= i < s.items.len(),
        s.items[i] is Tool ==> s.items[i]->Tool_0.ok is Some,
    ensures
        after(s, e, now).items.len() == s.items.len(),
        after(s, e, now).items[i] == s.items[i],
{
    let n = s.items.len() as int;
    match e {
        EventView::ToolOutputDelta { name, delta } => lemma_last_card(s.items, name, true, n),
        EventView::ToolSilentAlert { name, level } => lemma_last_card(s.items, name, true, n),
        _ => {},
    }
}

/// Whether no card keeps more running output than it may.
pub open spec fn is_bounded(items: Seq<MsgView>) -> bool {
    forall|i: int|
        0 <= i < items.len() && (#[trigger] items[i]) is Tool ==> editor::byte_len(
            items[i]->Tool_0.live,
        ) <= live::LIVE_CAP
}

proof fn lemma_calls_bounded(r: messages::Replay, calls: Seq<messages::CallView>)
    requires
        is_bounded(r.items),
    ensures
        is_bounded(messages::with_calls(r, calls).items),
    decreases calls.len(),
{
    if calls.len() > 0 {
        lemma_calls_bounded(r, calls.drop_last());
        assert(editor::byte_len(Seq::<char>::empty()) == 0);
    }
}

proof fn lemma_replay_bounded(items: Seq<MsgView>, ms: Seq<ChatView>)
    requires
        is_bounded(items),
    ensures
        is_bounded(messages::replay(items, ms).items),
    decreases ms.len(),
{
    if ms.len() > 0 {
        lemma_replay_bounded(items, ms.drop_last());
        let r = messages::replay(items, ms.drop_last());
        let m = ms.last();
        assert(editor::byte_len(Seq::<char>::empty()) == 0);
        let q = messages::Replay { items: messages::with_text(r.items, m.content, false), ..r };
        assert(is_bounded(q.items));
        lemma_calls_bounded(q, m.tool_calls);
    }
}

/// Whatever events come, no card keeps more running output than [`live::LIVE_CAP`]
/// bytes.
pub proof fn law_running_output_is_bounded(s: TalkView, e: EventView, now: u64)
    requires
        is_bounded(s.items),
    ensures
        is_bounded(after(s, e, now).items),
{
    let n = s.items.len() as int;
    assert(editor::byte_len(Seq::<char>::empty()) == 0);
    match e {
        EventView::ToolFinished { name, ok, output } => {
            lemma_last_card(s.items, name, false, n);
        },
        EventView::ToolOutputDelta { name, delta } => {
            lemma_last_card(s.items, name, true, n);
            let i = last_card(s.items, name, true, n);
            if i >= 0 {
                live::law_live_output_is_bounded(card_at(s.items, i).live + delta);
            }
        },
        EventView::ToolSilentAlert { name, level } => {
            lemma_last_card(s.items, name, true, n);
        },
        EventView::ContextCompacted { removed, summary, kept } => {
            if kept.len() > 0 {
                let head = Seq::<MsgView>::empty().push(
                    MsgView::Notice(
                        "✔ 上下文已压缩:此前 "@ + text::decimal(removed)
                            + " 条旧消息收敛为一段摘要"@,
                    ),
                ).push(MsgView::CommandOutput(summary)).push(
                    MsgView::Notice("保留最近 "@ + text::decimal(kept.len()) + " 条消息:"@),
                );
                assert(is_bounded(head));
                lemma_replay_bounded(head, kept);
            }
        },
        EventView::HistoryLoaded { count, messages } => {
            let head = Seq::<MsgView>::empty().push(
                MsgView::Notice(
                    "━━━ 已恢复历史会话("@ + text::decimal(count)
                        + " 条消息),内容如下 ━━━"@,
                ),
            );
            assert(is_bounded(head));
            lemma_replay_bounded(head, messages);
        },
        _ => {},
    }
}

/// A tool that ended keeps what it was called with, and shows nothing that runs.
pub proof fn law_finished_card(s: TalkView, name: Seq<char>, ok: bool, output: Seq<char>, now: u64)
    requires
        last_card(s.items, name, false, s.items.len() as int) >= 0,
    ensures
        ({
            let i = last_card(s.items, name, false, s.items.len() as int);
            let r = after(s, EventView::ToolFinished { name, ok, output }, now);
            let c = r.items[i]->Tool_0;
            &&& r.items.len() == s.items.len()
            &&& r.items[i] is Tool
            &&& c.name == name
            &&& c.ok == Some(ok)
            &&& c.output == output
            &&& c.live.len() == 0
            &&& c.args == card_at(s.items, i).args
            &&& c.idle_ms == card_at(s.items, i).idle_ms
        }),
{
    lemma_last_card(s.items, name, false, s.items.len() as int);
}

} // verus!
