//! What the message area holds: what was said, the cards of tool calls, notices; and
//! how the messages of an earlier session become such items.
use crate::text;
use vstd::prelude::*;

verus! {

// ----------------------------------------------------------------------- types

/// The card of a tool call.
#[derive(Debug)]
pub struct Card {
    pub name: String,
    /// The arguments of the call, as JSON.
    pub args: String,
    /// Whether it went well; none while it runs.
    pub ok: Option<bool>,
    pub output: String,
    /// When it began, in milliseconds; none for a call of an earlier session.
    pub started: Option<u64>,
    /// How many seconds it took.
    pub done_secs: Option<u64>,
    /// How many milliseconds the model expects it to take.
    pub idle_ms: Option<u64>,
    /// How long it has been silent: 0 for not long, 1 for long, 2 for too long.
    pub silent: u8,
    /// Its output while it runs.
    pub live: String,
}

/// What a card holds.
#[verifier::ext_equal]
pub struct CardView {
    pub name: Seq<char>,
    pub args: Seq<char>,
    pub ok: Option<bool>,
    pub output: Seq<char>,
    pub started: Option<u64>,
    pub done_secs: Option<u64>,
    pub idle_ms: Option<u64>,
    pub silent: u8,
    pub live: Seq<char>,
}

impl View for Card {
    type V = CardView;

    open spec fn view(&self) -> CardView {
        CardView {
            name: self.name@,
            args: self.args@,
            ok: self.ok,
            output: self.output@,
            started: self.started,
            done_secs: self.done_secs,
            idle_ms: self.idle_ms,
            silent: self.silent,
            live: self.live@,
        }
    }
}

/// An item of the message area.
#[derive(Debug)]
pub enum MsgItem {
    User(String),
    Assistant(String),
    /// An answer that is still coming in.
    AssistantStream(String),
    Reasoning(String),
    Tool(Card),
    Notice(String),
    /// What a slash command printed.
    CommandOutput(String),
    /// The banner.
    Logo,
}

/// What an item holds.
pub enum MsgView {
    User(Seq<char>),
    Assistant(Seq<char>),
    AssistantStream(Seq<char>),
    Reasoning(Seq<char>),
    Tool(CardView),
    Notice(Seq<char>),
    CommandOutput(Seq<char>),
    Logo,
}

impl View for MsgItem {
    type V = MsgView;

    open spec fn view(&self) -> MsgView {
        match self {
            MsgItem::User(t) => MsgView::User(t@),
            MsgItem::Assistant(t) => MsgView::Assistant(t@),
            MsgItem::AssistantStream(t) => MsgView::AssistantStream(t@),
            MsgItem::Reasoning(t) => MsgView::Reasoning(t@),
            MsgItem::Tool(c) => MsgView::Tool(c@),
            MsgItem::Notice(t) => MsgView::Notice(t@),
            MsgItem::CommandOutput(t) => MsgView::CommandOutput(t@),
            MsgItem::Logo => MsgView::Logo,
        }
    }
}

/// The items of a list.
#[verifier::opaque]
pub open spec fn msg_views(v: Seq<MsgItem>) -> Seq<MsgView> {
    v.map_values(|m: MsgItem| m@)
}

pub broadcast proof fn lemma_msg_views_len(v: Seq<MsgItem>)
    ensures
        #[trigger] msg_views(v).len() == v.len(),
{
    reveal(msg_views);
}

pub broadcast proof fn lemma_msg_views_index(v: Seq<MsgItem>, i: int)
    requires
        0 <= i < v.len(),
    ensures
        #[trigger] msg_views(v)[i] == v[i]@,
{
    reveal(msg_views);
}

pub broadcast group group_msg_views {
    lemma_msg_views_len,
    lemma_msg_views_index,
}

/// Appends an item to a list.
pub fn push_item(v: &mut Vec<MsgItem>, m: MsgItem)
    ensures
        msg_views(final(v)@) == msg_views(old(v)@).push(m@),
{
    v.push(m);
    proof {
        reveal(msg_views);
        assert(msg_views(v@) =~= msg_views(old(v)@).push(m@));
    }
}

/// Puts an item in place of another.
pub fn set_item(v: &mut Vec<MsgItem>, i: usize, m: MsgItem)
    requires
        i < old(v)@.len(),
    ensures
        msg_views(final(v)@) == msg_views(old(v)@).update(i as int, m@),
{
    v.set(i, m);
    proof {
        reveal(msg_views);
        assert(msg_views(v@) =~= msg_views(old(v)@).update(i as int, m@));
    }
}

/// Appends a notice to a list.
pub fn push_notice(v: &mut Vec<MsgItem>, t: String)
    ensures
        msg_views(final(v)@) == msg_views(old(v)@).push(MsgView::Notice(t@)),
{
    push_item(v, MsgItem::Notice(t));
}

/// Appends what a command printed to a list.
pub fn push_output(v: &mut Vec<MsgItem>, t: String)
    ensures
        msg_views(final(v)@) == msg_views(old(v)@).push(MsgView::CommandOutput(t@)),
{
    push_item(v, MsgItem::CommandOutput(t));
}

/// A list without items.
pub fn no_items() -> (v: Vec<MsgItem>)
    ensures
        msg_views(v@) == Seq::<MsgView>::empty(),
{
    let v: Vec<MsgItem> = Vec::new();
    proof {
        reveal(msg_views);
        assert(msg_views(v@) =~= Seq::<MsgView>::empty());
    }
    v
}

/// The card of a call that is not answered yet.
pub open spec fn open_card(name: Seq<char>, args: Seq<char>) -> CardView {
    CardView {
        name,
        args,
        ok: None,
        output: Seq::empty(),
        started: None,
        done_secs: None,
        idle_ms: None,
        silent: 0,
        live: Seq::empty(),
    }
}

/// The card of a call that is not answered yet.
pub fn new_card(name: String, args: String) -> (r: Card)
    ensures
        r@ == open_card(name@, args@),
{
    Card {
        name,
        args,
        ok: None,
        output: String::new(),
        started: None,
        done_secs: None,
        idle_ms: None,
        silent: 0,
        live: String::new(),
    }
}

/// A copy of a card.
pub fn copy_card(c: &Card) -> (r: Card)
    ensures
        r@ == c@,
{
    Card {
        name: c.name.clone(),
        args: c.args.clone(),
        ok: c.ok,
        output: c.output.clone(),
        started: c.started,
        done_secs: c.done_secs,
        idle_ms: c.idle_ms,
        silent: c.silent,
        live: c.live.clone(),
    }
}

// --------------------------------------------------------------------- history

/// Who a message of a session is from.
#[derive(Clone, Copy, Debug, PartialEq, Eq, Structural)]
pub enum Role {
    System,
    User,
    Assistant,
    Tool,
}

/// A tool call that a message declares.
#[derive(Debug)]
pub struct ToolCall {
    pub id: String,
    pub name: String,
    pub arguments: String,
}

/// What a tool call holds.
#[verifier::ext_equal]
pub struct CallView {
    pub id: Seq<char>,
    pub name: Seq<char>,
    pub arguments: Seq<char>,
}

impl View for ToolCall {
    type V = CallView;

    open spec fn view(&self) -> CallView {
        CallView { id: self.id@, name: self.name@, arguments: self.arguments@ }
    }
}

/// What tool calls hold.
pub open spec fn call_views(v: Seq<ToolCall>) -> Seq<CallView> {
    v.map_values(|c: ToolCall| c@)
}

/// A message of a session.
#[derive(Debug)]
pub struct ChatMessage {
    pub role: Role,
    pub content: Option<String>,
    pub tool_calls: Vec<ToolCall>,
    pub tool_call_id: Option<String>,
}

/// What a message holds.
#[verifier::ext_equal]
pub struct ChatView {
    pub role: Role,
    pub content: Option<Seq<char>>,
    pub tool_calls: Seq<CallView>,
    pub tool_call_id: Option<Seq<char>>,
}

impl View for ChatMessage {
    type V = ChatView;

    open spec fn view(&self) -> ChatView {
        ChatView {
            role: self.role,
            content: match self.content {
                Some(c) => Some(c@),
                None => None,
            },
            tool_calls: call_views(self.tool_calls@),
            tool_call_id: match self.tool_call_id {
                Some(c) => Some(c@),
                None => None,
            },
        }
    }
}

/// What messages hold.
pub open spec fn chat_views(v: Seq<ChatMessage>) -> Seq<ChatView> {
    v.map_values(|c: ChatMessage| c@)
}

/// The items that messages become, the names of the calls that they declare, and the
/// cards of those that are not answered yet.
#[verifier::ext_equal]
pub struct Replay {
    pub items: Seq<MsgView>,
    pub names: Map<Seq<char>, Seq<char>>,
    pub pending: Map<Seq<char>, int>,
}

/// The text of a message becomes an item, unless it is empty.
pub open spec fn with_text(items: Seq<MsgView>, content: Option<Seq<char>>, user: bool) -> Seq<
    MsgView,
> {
    match content {
        Some(c) => if c.len() == 0 {
            items
        } else if user {
            items.push(MsgView::User(c))
        } else {
            items.push(MsgView::Assistant(c))
        },
        None => items,
    }
}

/// A call becomes a card that is not answered yet.
pub open spec fn with_call(r: Replay, c: CallView) -> Replay {
    Replay {
        items: r.items.push(MsgView::Tool(open_card(c.name, c.arguments))),
        names: r.names.insert(c.id, c.name),
        pending: r.pending.insert(c.id, r.items.len() as int),
    }
}

/// Calls become cards, one after the other.
pub open spec fn with_calls(r: Replay, calls: Seq<CallView>) -> Replay
    decreases calls.len(),
{
    if calls.len() == 0 {
        r
    } else {
        with_call(with_calls(r, calls.drop_last()), calls.last())
    }
}

/// A card that is answered.
pub open spec fn answered(m: MsgView, output: Seq<char>) -> MsgView {
    match m {
        MsgView::Tool(c) => MsgView::Tool(CardView { ok: Some(true), output, ..c }),
        _ => m,
    }
}

/// A result goes to the card of its call; where none waits for it, it becomes a card
/// of its own.
pub open spec fn with_result(r: Replay, id: Option<Seq<char>>, output: Seq<char>) -> Replay {
    match id {
        Some(k) => if r.pending.dom().contains(k) {
            let i = r.pending[k];
            Replay {
                items: if 0 <= i < r.items.len() {
                    r.items.update(i, answered(r.items[i], output))
                } else {
                    r.items
                },
                pending: r.pending.remove(k),
                ..r
            }
        } else {
            with_loose_result(
                r,
                if r.names.dom().contains(k) {
                    r.names[k]
                } else {
                    "工具结果"@
                },
                output,
            )
        },
        None => with_loose_result(r, "工具结果"@, output),
    }
}

/// A result that no card waits for.
pub open spec fn with_loose_result(r: Replay, name: Seq<char>, output: Seq<char>) -> Replay {
    Replay {
        items: r.items.push(
            MsgView::Tool(
                CardView { ok: Some(true), output, ..open_card(name, Seq::empty()) },
            ),
        ),
        ..r
    }
}

/// A message becomes items.
pub open spec fn replayed(r: Replay, m: ChatView) -> Replay {
    match m.role {
        Role::System => r,
        Role::User => Replay { items: with_text(r.items, m.content, true), ..r },
        Role::Assistant => with_calls(
            Replay { items: with_text(r.items, m.content, false), ..r },
            m.tool_calls,
        ),
        Role::Tool => with_result(
            r,
            m.tool_call_id,
            match m.content {
                Some(c) => c,
                None => Seq::empty(),
            },
        ),
    }
}

/// Messages become items, one after the other.
pub open spec fn replay(items: Seq<MsgView>, ms: Seq<ChatView>) -> Replay
    decreases ms.len(),
{
    if ms.len() == 0 {
        Replay { items, names: Map::empty(), pending: Map::empty() }
    } else {
        replayed(replay(items, ms.drop_last()), ms.last())
    }
}

/// The calls that were declared, and the cards that wait for a result. A later pair
/// with the same identifier counts in place of an earlier one.
#[derive(Debug)]
pub struct Calls {
    pub names: Vec<(String, String)>,
    pub pending: Vec<(String, usize)>,
}

/// Identifiers with the names of tools.
pub open spec fn name_pairs(v: Seq<(String, String)>) -> Seq<(Seq<char>, Seq<char>)> {
    v.map_values(|p: (String, String)| (p.0@, p.1@))
}

/// Identifiers with the places of cards.
pub open spec fn place_pairs(v: Seq<(String, usize)>) -> Seq<(Seq<char>, int)> {
    v.map_values(|p: (String, usize)| (p.0@, p.1 as int))
}

/// A list of pairs as a map: the last pair of a key counts.
pub open spec fn as_map<V>(v: Seq<(Seq<char>, V)>) -> Map<Seq<char>, V>
    decreases v.len(),
{
    if v.len() == 0 {
        Map::empty()
    } else {
        as_map(v.drop_last()).insert(v.last().0, v.last().1)
    }
}

impl Calls {
    /// The names of the calls.
    pub open spec fn name_map(&self) -> Map<Seq<char>, Seq<char>> {
        as_map(name_pairs(self.names@))
    }

    /// The cards that wait.
    pub open spec fn place_map(&self) -> Map<Seq<char>, int> {
        as_map(place_pairs(self.pending@))
    }

    /// No calls.
    pub fn new() -> (r: Calls)
        ensures
            r.name_map() == Map::<Seq<char>, Seq<char>>::empty(),
            r.place_map() == Map::<Seq<char>, int>::empty(),
    {
        let r = Calls { names: Vec::new(), pending: Vec::new() };
        proof {
            assert(name_pairs(r.names@).len() == 0);
            assert(place_pairs(r.pending@).len() == 0);
        }
        r
    }

    fn declare(&mut self, id: &str, name: &str, place: usize)
        ensures
            final(self).name_map() == old(self).name_map().insert(id@, name@),
            final(self).place_map() == old(self).place_map().insert(id@, place as int),
    {
        let ghost n = name_pairs(self.names@);
        let ghost p = place_pairs(self.pending@);
        let a = (text::copy(id), text::copy(name));
        let b = (text::copy(id), place);
        self.names.push(a);
        self.pending.push(b);
        proof {
            assert(name_pairs(self.names@) =~= n.push((id@, name@)));
            assert(n.push((id@, name@)).drop_last() =~= n);
            assert(place_pairs(self.pending@) =~= p.push((id@, place as int)));
            assert(p.push((id@, place as int)).drop_last() =~= p);
        }
    }

    fn name_of(&self, id: &str) -> (r: Option<String>)
        ensures
            match r {
                Some(n) => self.name_map().dom().contains(id@) && self.name_map()[id@] == n@,
                None => !self.name_map().dom().contains(id@),
            },
    {
        let ghost all = name_pairs(self.names@);
        let mut i: usize = self.names.len();
        proof {
            assert(all.take(all.len() as int) =~= all);
        }
        while i > 0
            invariant
                all == name_pairs(self.names@),
                i <= self.names@.len(),
                as_map(all).dom().contains(id@) == as_map(all.take(i as int)).dom().contains(id@),
                as_map(all).dom().contains(id@) ==> as_map(all)[id@] == as_map(
                    all.take(i as int),
                )[id@],
            decreases i,
        {
            proof {
                assert(all.take(i as int).drop_last() =~= all.take(i - 1));
                assert(all.take(i as int).last() == all[i - 1]);
            }
            if text::same(self.names[i - 1].0.as_str(), id) {
                return Some(self.names[i - 1].1.clone());
            }
            i -= 1;
        }
        None
    }

    fn take_place(&mut self, id: &str) -> (r: Option<usize>)
        ensures
            final(self).name_map() == old(self).name_map(),
            match r {
                Some(i) => {
                    &&& old(self).place_map().dom().contains(id@)
                    &&& old(self).place_map()[id@] == i
                    &&& final(self).place_map() == old(self).place_map().remove(id@)
                },
                None => {
                    &&& !old(self).place_map().dom().contains(id@)
                    &&& final(self).place_map() == old(self).place_map()
                },
            },
    {
        let ghost all = place_pairs(self.pending@);
        let mut rest: Vec<(String, usize)> = Vec::new();
        let mut found: Option<usize> = None;
        let mut i: usize = 0;
        proof {
            assert(all.take(0) =~= Seq::<(Seq<char>, int)>::empty());
            assert(place_pairs(rest@) =~= Seq::<(Seq<char>, int)>::empty());
            assert(as_map(place_pairs(rest@)) =~= as_map(all.take(0)).remove(id@));
        }
        while i < self.pending.len()
            invariant
                all == place_pairs(self.pending@),
                i <= self.pending@.len(),
                as_map(place_pairs(rest@)) == as_map(all.take(i as int)).remove(id@),
                match found {
                    Some(k) => {
                        &&& as_map(all.take(i as int)).dom().contains(id@)
                        &&& as_map(all.take(i as int))[id@] == k
                    },
                    None => !as_map(all.take(i as int)).dom().contains(id@),
                },
            decreases self.pending@.len() - i,
        {
            let ghost m = as_map(all.take(i as int));
            proof {
                assert(all.take(i + 1).drop_last() =~= all.take(i as int));
                assert(all.take(i + 1).last() == all[i as int]);
            }
            let p = &self.pending[i];
            if text::same(p.0.as_str(), id) {
                found = Some(p.1);
                proof {
                    assert(m.insert(all[i as int].0, all[i as int].1).remove(id@) =~= m.remove(
                        id@,
                    ));
                }
            } else {
                let ghost before = place_pairs(rest@);
                let q = (p.0.clone(), p.1);
                rest.push(q);
                proof {
                    assert(place_pairs(rest@) =~= before.push(all[i as int]));
                    assert(before.push(all[i as int]).drop_last() =~= before);
                    assert(m.insert(all[i as int].0, all[i as int].1).remove(id@) =~= m.remove(
                        id@,
                    ).insert(all[i as int].0, all[i as int].1));
                }
            }
            i += 1;
        }
        proof {
            assert(all.take(i as int) =~= all);
            if found is None {
                assert(as_map(all).remove(id@) =~= as_map(all));
            }
        }
        self.pending = rest;
        found
    }
}

fn add_text(items: &mut Vec<MsgItem>, content: &Option<String>, user: bool)
    ensures
        msg_views(final(items)@) == with_text(
            msg_views(old(items)@),
            match *content {
                Some(c) => Some(c@),
                None => None,
            },
            user,
        ),
{
    if let Some(c) = content {
        if !c.as_str().is_empty() {
            if user {
                push_item(items, MsgItem::User(c.clone()));
            } else {
                push_item(items, MsgItem::Assistant(c.clone()));
            }
        }
    }
}

/// The items so far, and the calls that wait for a result.
pub open spec fn replay_state(items: Seq<MsgItem>, calls: Calls) -> Replay {
    Replay { items: msg_views(items), names: calls.name_map(), pending: calls.place_map() }
}

fn add_calls(items: &mut Vec<MsgItem>, tool_calls: &Vec<ToolCall>, calls: &mut Calls)
    ensures
        replay_state(final(items)@, *final(calls)) == with_calls(
            replay_state(old(items)@, *old(calls)),
            call_views(tool_calls@),
        ),
{
    let ghost start = replay_state(old(items)@, *old(calls));
    let ghost all = call_views(tool_calls@);
    let mut i: usize = 0;
    proof {
        assert(all.take(0) =~= Seq::<CallView>::empty());
    }
    while i < tool_calls.len()
        invariant
            all == call_views(tool_calls@),
            i <= tool_calls@.len(),
            replay_state(items@, *calls) == with_calls(start, all.take(i as int)),
        decreases tool_calls@.len() - i,
    {
        proof {
            assert(all.take(i + 1).drop_last() =~= all.take(i as int));
            assert(all.take(i + 1).last() == all[i as int]);
        }
        let c = &tool_calls[i];
        let place: usize = items.len();
        let ghost before = replay_state(items@, *calls);
        proof {
            lemma_msg_views_len(items@);
        }
        push_item(items, MsgItem::Tool(new_card(c.name.clone(), c.arguments.clone())));
        calls.declare(c.id.as_str(), c.name.as_str(), place);
        proof {
            assert(replay_state(items@, *calls) =~= with_call(before, c@));
        }
        i += 1;
    }
    proof {
        assert(all.take(i as int) =~= all);
    }
}

fn add_result(items: &mut Vec<MsgItem>, id: &Option<String>, output: String, calls: &mut Calls)
    ensures
        replay_state(final(items)@, *final(calls)) == with_result(
            replay_state(old(items)@, *old(calls)),
            match *id {
                Some(k) => Some(k@),
                None => None,
            },
            output@,
        ),
{
    broadcast use group_msg_views;

    let name = match id {
        Some(k) => match calls.take_place(k.as_str()) {
            Some(i) => {
                if i < items.len() {
                    if let MsgItem::Tool(c) = &items[i] {
                        let mut d = copy_card(c);
                        d.ok = Some(true);
                        d.output = output;
                        set_item(items, i, MsgItem::Tool(d));
                    } else {
                        proof {
                            let v = msg_views(items@);
                            assert(v.update(i as int, v[i as int]) =~= v);
                        }
                    }
                }
                return;
            },
            None => match calls.name_of(k.as_str()) {
                Some(n) => n,
                None => text::copy("工具结果"),
            },
        },
        None => text::copy("工具结果"),
    };
    let mut c = new_card(name, String::new());
    c.ok = Some(true);
    c.output = output;
    push_item(items, MsgItem::Tool(c));
}

/// Makes items of a message.
pub fn push_history_item(items: &mut Vec<MsgItem>, msg: &ChatMessage, calls: &mut Calls)
    ensures
        replay_state(final(items)@, *final(calls)) == replayed(
            replay_state(old(items)@, *old(calls)),
            msg@,
        ),
{
    match msg.role {
        Role::System => {},
        Role::User => add_text(items, &msg.content, true),
        Role::Assistant => {
            add_text(items, &msg.content, false);
            add_calls(items, &msg.tool_calls, calls);
        },
        Role::Tool => {
            let output = match &msg.content {
                Some(c) => c.clone(),
                None => String::new(),
            };
            add_result(items, &msg.tool_call_id, output, calls);
        },
    }
}

/// Makes items of messages, one after the other.
pub fn push_history(items: &mut Vec<MsgItem>, messages: &Vec<ChatMessage>)
    ensures
        msg_views(final(items)@) == replay(
            msg_views(old(items)@),
            chat_views(messages@),
        ).items,
{
    let ghost start = msg_views(old(items)@);
    let ghost all = chat_views(messages@);
    let mut calls = Calls::new();
    let mut i: usize = 0;
    proof {
        assert(all.take(0) =~= Seq::<ChatView>::empty());
    }
    while i < messages.len()
        invariant
            all == chat_views(messages@),
            i <= messages@.len(),
            replay_state(items@, calls) == replay(start, all.take(i as int)),
        decreases messages@.len() - i,
    {
        proof {
            assert(all.take(i + 1).drop_last() =~= all.take(i as int));
            assert(all.take(i + 1).last() == all[i as int]);
        }
        push_history_item(items, &messages[i], &mut calls);
        i += 1;
    }
    proof {
        assert(all.take(i as int) =~= all);
    }
}

// ------------------------------------------------------------------------ laws

/// The result of a call goes to the card that the call became, and no other item
/// changes: the two messages make one card, whatever came before.
pub proof fn law_result_meets_its_call(r: Replay, c: CallView, output: Seq<char>)
    ensures
        ({
            let s = with_result(with_call(r, c), Some(c.id), output);
            &&& s.items == r.items.push(
                MsgView::Tool(
                    CardView { ok: Some(true), output, ..open_card(c.name, c.arguments) },
                ),
            )
            &&& !s.pending.dom().contains(c.id)
        }),
{
    let s = with_result(with_call(r, c), Some(c.id), output);
    assert(s.items =~= r.items.push(
        MsgView::Tool(CardView { ok: Some(true), output, ..open_card(c.name, c.arguments) }),
    ));
}

/// Whether every call that waits has a card of its own that is not answered yet.
pub open spec fn waits(r: Replay) -> bool {
    forall|k: Seq<char>| #[trigger]
        r.pending.dom().contains(k) ==> 0 <= r.pending[k] < r.items.len()
            && r.items[r.pending[k]] is Tool && r.items[r.pending[k]]->Tool_0.ok is None
}

/// Whether no two calls wait for the same card.
pub open spec fn waits_apart(r: Replay) -> bool {
    forall|j: Seq<char>, k: Seq<char>|
        #![trigger r.pending.dom().contains(j), r.pending.dom().contains(k)]
        r.pending.dom().contains(j) && r.pending.dom().contains(k) && j != k ==> r.pending[j]
            != r.pending[k]
}

proof fn lemma_call_waits(r: Replay, c: CallView)
    requires
        waits(r),
        waits_apart(r),
    ensures
        waits(with_call(r, c)),
        waits_apart(with_call(r, c)),
{
    let s = with_call(r, c);
    assert forall|k: Seq<char>| #[trigger] s.pending.dom().contains(k) implies 0 <= s.pending[k]
        < s.items.len() && s.items[s.pending[k]] is Tool && s.items[s.pending[k]]->Tool_0.ok is None
        by {
        if k != c.id {
            assert(r.pending.dom().contains(k));
        }
    }
    assert forall|j: Seq<char>, k: Seq<char>|
        #![trigger s.pending.dom().contains(j), s.pending.dom().contains(k)]
        s.pending.dom().contains(j) && s.pending.dom().contains(k) && j != k implies s.pending[j]
        != s.pending[k] by {
        if j != c.id {
            assert(r.pending.dom().contains(j));
        }
        if k != c.id {
            assert(r.pending.dom().contains(k));
        }
    }
}

proof fn lemma_calls_wait(r: Replay, calls: Seq<CallView>)
    requires
        waits(r),
        waits_apart(r),
    ensures
        waits(with_calls(r, calls)),
        waits_apart(with_calls(r, calls)),
    decreases calls.len(),
{
    if calls.len() > 0 {
        lemma_calls_wait(r, calls.drop_last());
        lemma_call_waits(with_calls(r, calls.drop_last()), calls.last());
    }
}

proof fn lemma_replayed_waits(r: Replay, m: ChatView)
    requires
        waits(r),
        waits_apart(r),
    ensures
        waits(replayed(r, m)),
        waits_apart(replayed(r, m)),
{
    let s = replayed(r, m);
    match m.role {
        Role::System => {},
        Role::User => {
            assert forall|k: Seq<char>| #[trigger] s.pending.dom().contains(k) implies 0
                <= s.pending[k] < s.items.len() && s.items[s.pending[k]] is Tool
                && s.items[s.pending[k]]->Tool_0.ok is None by {
                assert(r.pending.dom().contains(k));
            }
            assert(waits_apart(s)) by {
                assert(s.pending == r.pending);
            }
        },
        Role::Assistant => {
            let q = Replay { items: with_text(r.items, m.content, false), ..r };
            assert forall|k: Seq<char>| #[trigger] q.pending.dom().contains(k) implies 0
                <= q.pending[k] < q.items.len() && q.items[q.pending[k]] is Tool
                && q.items[q.pending[k]]->Tool_0.ok is None by {
                assert(r.pending.dom().contains(k));
            }
            assert(waits_apart(q)) by {
                assert(q.pending == r.pending);
            }
            lemma_calls_wait(q, m.tool_calls);
        },
        Role::Tool => {
            assert forall|k: Seq<char>| #[trigger] s.pending.dom().contains(k) implies 0
                <= s.pending[k] < s.items.len() && s.items[s.pending[k]] is Tool
                && s.items[s.pending[k]]->Tool_0.ok is None by {
                assert(r.pending.dom().contains(k));
                if let Some(id) = m.tool_call_id {
                    if r.pending.dom().contains(id) {
                        assert(k != id);
                        assert(r.pending[k] != r.pending[id]);
                    }
                }
            }
            assert forall|j: Seq<char>, k: Seq<char>|
                #![trigger s.pending.dom().contains(j), s.pending.dom().contains(k)]
                s.pending.dom().contains(j) && s.pending.dom().contains(k) && j
                    != k implies s.pending[j] != s.pending[k] by {
                assert(r.pending.dom().contains(j));
                assert(r.pending.dom().contains(k));
            }
        },
    }
}

/// However messages follow each other, every call that waits has a card, which is not
/// answered yet, and no two calls share one.
pub proof fn law_waiting_calls_have_cards(items: Seq<MsgView>, ms: Seq<ChatView>)
    ensures
        waits(replay(items, ms)),
        waits_apart(replay(items, ms)),
    decreases ms.len(),
{
    if ms.len() > 0 {
        law_waiting_calls_have_cards(items, ms.drop_last());
        lemma_replayed_waits(replay(items, ms.drop_last()), ms.last());
    }
}

} // verus!
