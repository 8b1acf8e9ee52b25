//! What confirming, choosing and leaving do to the settings in the panel for quick
//! changes, key by key.

use crate::config_ui;
use crate::input::KeyCode;
use crate::quick_cfg;
use crate::quick_cfg::{PanelView, QcItem, QcStep, QuickView};
use crate::scan;
use crate::settings;
use crate::settings::{DefView, HostView, ProtocolKind, ProxyMode, ProxyView, RetryConfig};
use crate::text;
use crate::text_laws;
use vstd::prelude::*;

verus! {

/// A text is being typed, and none of the questions with an answer of their own has
/// been asked.
pub open spec fn plain_typing(p: PanelView) -> bool {
    &&& p.typing
    &&& !p.typing_custom_url
    &&& !p.typing_context_window
    &&& !p.typing_max_turns
    &&& !p.typing_retry
    &&& !p.typing_proxy
}

/// The limit of turns is being typed.
pub open spec fn typing_turns(p: PanelView) -> bool {
    p.typing_max_turns && plain_typing(PanelView { typing_max_turns: false, ..p })
}

/// The context window is being typed.
pub open spec fn typing_window(p: PanelView) -> bool {
    p.typing_context_window && plain_typing(PanelView { typing_context_window: false, ..p })
}

/// The number of retries is being typed.
pub open spec fn typing_retries(p: PanelView) -> bool {
    p.typing_retry && plain_typing(PanelView { typing_retry: false, ..p })
}

/// The address of the proxy is being typed.
pub open spec fn typing_address(p: PanelView) -> bool {
    p.typing_proxy && plain_typing(PanelView { typing_proxy: false, ..p })
}

/// The endpoint of a custom provider is being typed.
pub open spec fn typing_endpoint(p: PanelView) -> bool {
    p.typing_custom_url && plain_typing(PanelView { typing_custom_url: false, ..p })
}

/// The panel when nothing is typed any more, with another message.
pub open spec fn settled(p: PanelView, notice: Seq<char>) -> PanelView {
    PanelView {
        typing: false,
        input_buf: Seq::empty(),
        typing_custom_url: false,
        typing_context_window: false,
        typing_max_turns: false,
        typing_retry: false,
        typing_proxy: false,
        notice,
        ..p
    }
}

/// The panel after the confirming key.
pub open spec fn entered(p: PanelView, h: HostView) -> PanelView {
    quick_cfg::on_key_of(p, KeyCode::Enter, h).0
}

/// What a number that stands in white space is read as.
pub proof fn lemma_typed_number(n: nat, a: Seq<char>, b: Seq<char>)
    requires
        text_laws::blank(a),
        text_laws::blank(b),
    ensures
        scan::trimmed(a + text::decimal(n) + b) == text::decimal(n),
        scan::trimmed(text::decimal(n)) == text::decimal(n),
        text::decimal(n).len() > 0,
        text::parse_number(text::decimal(n), usize::MAX as nat) == (if n <= usize::MAX {
            Some(n)
        } else {
            None
        }),
{
    let d = text::decimal(n);
    text_laws::lemma_decimal_digits(n);
    text_laws::law_numbers_are_read_back(n, usize::MAX as nat);
    assert(text::is_digit(d[0]) && text::is_digit(d[d.len() - 1]));
    text_laws::law_white_space(d[0]);
    text_laws::law_white_space(d[d.len() - 1]);
    text_laws::law_trimming_takes_white_space(a, d, b);
    let e = Seq::<char>::empty();
    text_laws::law_trimming_takes_white_space(e, d, e);
    assert(e + d + e =~= d);
}

/// White space alone is read as nothing.
pub proof fn lemma_typed_nothing(a: Seq<char>)
    requires
        text_laws::blank(a),
    ensures
        scan::trimmed(a) == Seq::<char>::empty(),
        scan::trimmed(Seq::<char>::empty()) == Seq::<char>::empty(),
{
    let e = Seq::<char>::empty();
    text_laws::law_trimming_takes_white_space(a, e, e);
    assert(a + e + e =~= a);
    text_laws::law_trimming_takes_white_space(e, e, e);
    assert(e + e + e =~= e);
}

/// A text with something other than digits in it is refused as a number.
pub proof fn lemma_typed_other(s: Seq<char>, i: int)
    requires
        text_laws::tight(s),
        0 <= i < s.len(),
        !('0' <= s[i] <= '9'),
        i > 0 || s[i] != '+' || s.len() == 1,
    ensures
        scan::trimmed(s) == s,
        text::parse_number(s, usize::MAX as nat) is None,
{
    let e = Seq::<char>::empty();
    text_laws::law_trimming_takes_white_space(e, s, e);
    assert(e + s + e =~= s);
    text_laws::law_only_digits_are_numbers(s, usize::MAX as nat, i);
}

// ---------------------------------------------------------------------- numbers

/// Confirming the digits of a number in the editor of the limit of turns sets the
/// limit to it, and confirming nothing takes the limit away; every other setting is as
/// it was. White space around the number does not count.
pub proof fn law_turns_are_set(p: PanelView, h: HostView, n: usize, a: Seq<char>, b: Seq<char>)
    requires
        typing_turns(p),
        text_laws::blank(a),
        text_laws::blank(b),
    ensures
        p.input_buf == a + text::decimal(n as nat) + b ==> entered(p, h) == (PanelView {
            max_turns: Some(n),
            ..settled(p, entered(p, h).notice)
        }),
        p.input_buf == a ==> entered(p, h) == (PanelView {
            max_turns: None,
            ..settled(p, entered(p, h).notice)
        }),
        quick_cfg::on_key_of(p, KeyCode::Enter, h).1 == QuickView::Idle,
{
    lemma_typed_number(n as nat, a, b);
    lemma_typed_nothing(a);
}

/// Confirming the digits of a positive number in the editor of the context window
/// sets the window to it, and confirming nothing leaves it to the model; every other
/// setting is as it was.
pub proof fn law_window_is_set(p: PanelView, h: HostView, n: usize, a: Seq<char>, b: Seq<char>)
    requires
        typing_window(p),
        text_laws::blank(a),
        text_laws::blank(b),
        n > 0,
    ensures
        p.input_buf == a + text::decimal(n as nat) + b ==> entered(p, h) == (PanelView {
            context_window: Some(n),
            ..settled(p, entered(p, h).notice)
        }),
        p.input_buf == a ==> entered(p, h) == (PanelView {
            context_window: None,
            ..settled(p, entered(p, h).notice)
        }),
        quick_cfg::on_key_of(p, KeyCode::Enter, h).1 == QuickView::Idle,
{
    lemma_typed_number(n as nat, a, b);
    lemma_typed_nothing(a);
}

/// Confirming the digits of a number in the editor of the retries allows so many, but
/// no more than eight; confirming none or nothing turns them off. Every other setting
/// is as it was, and the cursor stands on the number where the list has it.
pub proof fn law_retries_are_set(p: PanelView, h: HostView, n: usize, a: Seq<char>, b: Seq<char>)
    requires
        typing_retries(p),
        text_laws::blank(a),
        text_laws::blank(b),
    ensures
        ({
            let q = entered(p, h);
            p.input_buf == a + text::decimal(n as nat) + b ==> q == (PanelView {
                retry: RetryConfig {
                    enabled: n > 0,
                    max_retries: if n > 8 {
                        8
                    } else {
                        n
                    },
                },
                retry_cursor: if n == 0 {
                    0
                } else if n == 3 {
                    1
                } else if n == 5 {
                    2
                } else if n >= 8 {
                    3
                } else {
                    4
                },
                ..settled(p, q.notice)
            })
        }),
        p.input_buf == a ==> entered(p, h) == (PanelView {
            retry: RetryConfig { enabled: false, max_retries: 0 },
            retry_cursor: 0,
            ..settled(p, entered(p, h).notice)
        }),
        quick_cfg::on_key_of(p, KeyCode::Enter, h).1 == QuickView::Idle,
{
    lemma_typed_number(n as nat, a, b);
    lemma_typed_nothing(a);
}

/// A text that is no number is given back in all three editors of numbers, to be
/// mended, and no setting changes. So is a window of no size.
pub proof fn law_refused_numbers_are_given_back(p: PanelView, h: HostView, i: int)
    requires
        typing_turns(p) || typing_window(p) || typing_retries(p),
        text_laws::tight(p.input_buf),
        0 <= i < p.input_buf.len(),
        !('0' <= p.input_buf[i] <= '9'),
        i > 0 || p.input_buf[i] != '+' || p.input_buf.len() == 1,
    ensures
        entered(p, h) == (PanelView { notice: entered(p, h).notice, ..p }),
{
    lemma_typed_other(p.input_buf, i);
}

/// A context window of no tokens is given back, to be mended, and stays what it was.
pub proof fn law_empty_window_is_refused(p: PanelView, h: HostView)
    requires
        typing_window(p),
        p.input_buf == text::decimal(0),
    ensures
        entered(p, h) == (PanelView { notice: entered(p, h).notice, ..p }),
{
    let e = Seq::<char>::empty();
    lemma_typed_number(0, e, e);
    assert(e + text::decimal(0) + e =~= text::decimal(0));
}

// ------------------------------------------------------------------------ texts

/// Confirming a text in the editor of the model sets the model to it, without the
/// white space around it; a model without a name is asked for again.
pub proof fn law_model_is_set(p: PanelView, h: HostView, a: Seq<char>, t: Seq<char>, b: Seq<char>)
    requires
        plain_typing(p),
        p.step == QcStep::Edit(QcItem::Model),
        text_laws::blank(a),
        text_laws::tight(t),
        text_laws::blank(b),
        p.input_buf == a + t + b,
    ensures
        t.len() > 0 ==> entered(p, h) == (PanelView {
            model: t,
            ..settled(p, entered(p, h).notice)
        }),
        t.len() == 0 ==> entered(p, h) == (PanelView {
            typing: true,
            ..settled(p, entered(p, h).notice)
        }),
{
    let e = Seq::<char>::empty();
    text_laws::law_trimming_takes_white_space(a, t, b);
    text_laws::law_trimming_takes_white_space(e, t, e);
    assert(e + t + e =~= t);
    if t.len() == 0 {
        assert(t =~= e);
    }
}

/// Confirming a text in the editor of the key sets the key to it, and the key does
/// not come from the environment any more.
pub proof fn law_key_is_set(p: PanelView, h: HostView, a: Seq<char>, t: Seq<char>, b: Seq<char>)
    requires
        plain_typing(p),
        p.step == QcStep::Edit(QcItem::ApiKey),
        text_laws::blank(a),
        text_laws::tight(t),
        text_laws::blank(b),
        p.input_buf == a + t + b,
    ensures
        entered(p, h) == (PanelView {
            api_key: t,
            key_from_env: false,
            key_env_name: None,
            ..settled(p, entered(p, h).notice)
        }),
{
    text_laws::law_trimming_takes_white_space(a, t, b);
}

/// Confirming an address behind `http://` or `https://` in the editor of the endpoint
/// sets the endpoint to it; every other text is refused, and no setting changes.
pub proof fn law_endpoint_is_set(
    p: PanelView,
    h: HostView,
    a: Seq<char>,
    t: Seq<char>,
    b: Seq<char>,
    rest: Seq<char>,
)
    requires
        plain_typing(p),
        p.step == QcStep::Edit(QcItem::BaseUrl),
        text_laws::blank(a),
        text_laws::tight(t),
        text_laws::blank(b),
        p.input_buf == a + t + b,
    ensures
        t == "http://"@ + rest || t == "https://"@ + rest ==> entered(p, h) == (PanelView {
            base_url: t,
            ..settled(p, entered(p, h).notice)
        }),
        !("http://"@.is_prefix_of(t)) && !("https://"@.is_prefix_of(t)) ==> entered(p, h) == (
        PanelView { typing: true, ..settled(p, entered(p, h).notice) }),
{
    lemma_scheme(a, t, b, rest);
}

pub proof fn lemma_scheme(a: Seq<char>, t: Seq<char>, b: Seq<char>, rest: Seq<char>)
    requires
        text_laws::blank(a),
        text_laws::tight(t),
        text_laws::blank(b),
    ensures
        scan::trimmed(a + t + b) == t,
        scan::trimmed(t) == t,
        t == "http://"@ + rest || t == "https://"@ + rest ==> settings::has_scheme(t),
        !("http://"@.is_prefix_of(t)) && !("https://"@.is_prefix_of(t)) ==> !settings::has_scheme(
            t,
        ),
{
    reveal_strlit("http://");
    reveal_strlit("https://");
    let e = Seq::<char>::empty();
    text_laws::law_trimming_takes_white_space(a, t, b);
    text_laws::law_trimming_takes_white_space(e, t, e);
    assert(e + t + e =~= t);
    if t == "http://"@ + rest {
        assert("http://"@.is_prefix_of(t));
    }
    if t == "https://"@ + rest {
        assert("https://"@.is_prefix_of(t));
    }
}

/// Confirming the endpoint of a custom provider makes that provider the current one, at
/// that endpoint and without a session header; what is no endpoint is asked for again,
/// and no setting changes.
pub proof fn law_custom_provider_is_set(
    p: PanelView,
    h: HostView,
    a: Seq<char>,
    t: Seq<char>,
    b: Seq<char>,
    rest: Seq<char>,
)
    requires
        typing_endpoint(p),
        text_laws::blank(a),
        text_laws::tight(t),
        text_laws::blank(b),
        p.input_buf == a + t + b,
    ensures
        t == "http://"@ + rest || t == "https://"@ + rest ==> entered(p, h) == (PanelView {
            provider: "custom"@,
            base_url: t,
            session_header: false,
            session_cursor: 1,
            ..settled(p, entered(p, h).notice)
        }),
        !("http://"@.is_prefix_of(t)) && !("https://"@.is_prefix_of(t)) ==> entered(p, h) == (
        PanelView {
            typing: true,
            typing_custom_url: true,
            ..settled(p, entered(p, h).notice)
        }),
{
    lemma_scheme(a, t, b, rest);
    reveal_strlit("custom");
}

/// Confirming an address of a proxy takes over its normal form where it has one, and
/// confirming nothing leaves the proxy to the environment; a refused address is given
/// back, and no setting changes.
pub proof fn law_proxy_is_set(p: PanelView, h: HostView, a: Seq<char>, t: Seq<char>, b: Seq<char>)
    requires
        typing_address(p),
        text_laws::blank(a),
        text_laws::tight(t),
        text_laws::blank(b),
        p.input_buf == a + t + b,
    ensures
        t.len() == 0 ==> entered(p, h) == (PanelView {
            proxy: ProxyView { mode: ProxyMode::Auto, url: None },
            proxy_cursor: 0,
            ..settled(p, entered(p, h).notice)
        }),
        match h.proxy_check {
            settings::CheckView::Normal(n) => t.len() > 0 ==> entered(p, h) == (PanelView {
                proxy: ProxyView { mode: ProxyMode::Manual, url: Some(n) },
                proxy_cursor: 2,
                ..settled(p, entered(p, h).notice)
            }),
            _ => t.len() > 0 ==> entered(p, h) == (PanelView {
                input_buf: t,
                notice: entered(p, h).notice,
                ..p
            }),
        },
{
    let e = Seq::<char>::empty();
    text_laws::law_trimming_takes_white_space(a, t, b);
    text_laws::law_trimming_takes_white_space(e, t, e);
    assert(e + t + e =~= t);
}

// ----------------------------------------------------------------------- typing

/// The panel after the characters of a text have been pressed one after another.
pub open spec fn pressed(p: PanelView, s: Seq<char>, h: HostView) -> PanelView
    decreases s.len(),
{
    if s.len() == 0 {
        p
    } else {
        quick_cfg::on_key_of(pressed(p, s.drop_last(), h), KeyCode::Char(s.last()), h).0
    }
}

/// While a text is typed, each character goes behind it, the key that deletes takes
/// the last one back, and the key that leaves drops the text; no setting changes.
pub proof fn law_characters_are_typed(p: PanelView, s: Seq<char>, c: char, h: HostView)
    requires
        p.typing,
    ensures
        pressed(p, s, h) == (PanelView { input_buf: p.input_buf + s, ..p }),
        quick_cfg::on_key_of(
            pressed(p, seq![c], h),
            KeyCode::Backspace,
            h,
        ).0 == p,
        quick_cfg::on_key_of(p, KeyCode::Esc, h).0 == settled(p, p.notice),
    decreases s.len(),
{
    if s.len() == 0 {
        assert(p.input_buf + s =~= p.input_buf);
    } else {
        law_characters_are_typed(p, s.drop_last(), c, h);
        assert((p.input_buf + s.drop_last()).push(s.last()) =~= p.input_buf + s);
    }
    let one = seq![c];
    assert(one.drop_last() =~= Seq::<char>::empty());
    assert(one.last() == c);
    assert(pressed(p, one.drop_last(), h) == p);
    assert(p.input_buf.push(c).drop_last() =~= p.input_buf);
}

/// Pressing the digits of a number in the editor of the limit of turns, and confirming
/// them, sets the limit to that number; likewise the context window and the retries.
pub proof fn law_numbers_are_typed(p: PanelView, h: HostView, n: usize)
    requires
        p == settled(p, p.notice),
    ensures
        ({
            let q = entered(pressed(p, text::decimal(n as nat), h), h);
            &&& p.step == QcStep::Edit(QcItem::MaxTurns) ==> q == (PanelView {
                max_turns: Some(n),
                ..settled(p, q.notice)
            })
            &&& p.step == QcStep::Edit(QcItem::ContextWindow) && n > 0 ==> q == (PanelView {
                context_window: Some(n),
                ..settled(p, q.notice)
            })
            &&& p.step == QcStep::Edit(QcItem::Retry) ==> q == (PanelView {
                retry: RetryConfig {
                    enabled: n > 0,
                    max_retries: if n > 8 {
                        8
                    } else {
                        n
                    },
                },
                retry_cursor: q.retry_cursor,
                ..settled(p, q.notice)
            })
        }),
{
    let d = text::decimal(n as nat);
    let e = Seq::<char>::empty();
    lemma_typed_number(n as nat, e, e);
    text_laws::lemma_decimal_digits(n as nat);
    assert(e + d + e =~= d);
    let first = seq![d[0]];
    assert(text::is_digit(d[0]));
    assert(d =~= first + d.skip(1));
    lemma_pressed_on(p, first, d.skip(1), h);
    assert(first.drop_last() =~= e && first.last() == d[0]);
    assert(pressed(p, first.drop_last(), h) == p);
    let x = pressed(p, first, h);
    if p.step == QcStep::Edit(QcItem::MaxTurns) {
        assert(x == (PanelView {
            typing: true,
            typing_max_turns: true,
            input_buf: first,
            notice: x.notice,
            ..p
        }));
        law_characters_are_typed(x, d.skip(1), ' ', h);
        law_turns_are_set(pressed(x, d.skip(1), h), h, n, e, e);
    }
    if p.step == QcStep::Edit(QcItem::ContextWindow) && n > 0 {
        assert(x == (PanelView {
            typing: true,
            typing_context_window: true,
            input_buf: first,
            notice: x.notice,
            ..p
        }));
        law_characters_are_typed(x, d.skip(1), ' ', h);
        law_window_is_set(pressed(x, d.skip(1), h), h, n, e, e);
    }
    if p.step == QcStep::Edit(QcItem::Retry) {
        assert(x == (PanelView {
            typing: true,
            typing_retry: true,
            input_buf: first,
            notice: x.notice,
            ..p
        }));
        law_characters_are_typed(x, d.skip(1), ' ', h);
        law_retries_are_set(pressed(x, d.skip(1), h), h, n, e, e);
    }
}

proof fn lemma_pressed_on(p: PanelView, s: Seq<char>, t: Seq<char>, h: HostView)
    ensures
        pressed(p, s + t, h) == pressed(pressed(p, s, h), t, h),
    decreases t.len(),
{
    if t.len() == 0 {
        assert(s + t =~= s);
    } else {
        assert((s + t).drop_last() =~= s + t.drop_last());
        lemma_pressed_on(p, s, t.drop_last(), h);
    }
}

// ------------------------------------------------------------------------- menu

/// The panel in the menu with nothing typed.
pub open spec fn in_menu(p: PanelView) -> bool {
    p.step == QcStep::Menu && !p.typing
}

/// The digits choose the settings in the order of the menu, the last by `0`; the cursor
/// goes there, and so does the key that confirms at the cursor.
pub proof fn law_menu_is_chosen_from(p: PanelView, c: char, h: HostView)
    requires
        in_menu(p),
    ensures
        ({
            let item = match c {
                '1' => QcItem::Provider,
                '2' => QcItem::Model,
                '3' => QcItem::Protocol,
                '4' => QcItem::ApiKey,
                '5' => QcItem::BaseUrl,
                '6' => QcItem::ContextWindow,
                '7' => QcItem::MaxTurns,
                '8' => QcItem::Retry,
                '9' => QcItem::SessionHeader,
                _ => QcItem::Proxy,
            };
            let q = quick_cfg::on_key_of(p, KeyCode::Char(c), h).0;
            '0' <= c <= '9' ==> q.step == QcStep::Edit(item) && q.menu_cursor == (if c == '0' {
                9int
            } else {
                (c as int) - ('1' as int)
            })
        }),
        p.menu_cursor == 0 ==> entered(p, h).step == QcStep::Edit(QcItem::Provider),
        p.menu_cursor == 1 ==> entered(p, h).step == QcStep::Edit(QcItem::Model),
        p.menu_cursor == 2 ==> entered(p, h).step == QcStep::Edit(QcItem::Protocol),
        p.menu_cursor == 3 ==> entered(p, h).step == QcStep::Edit(QcItem::ApiKey),
        p.menu_cursor == 4 ==> entered(p, h).step == QcStep::Edit(QcItem::BaseUrl),
        p.menu_cursor == 5 ==> entered(p, h).step == QcStep::Edit(QcItem::ContextWindow),
        p.menu_cursor == 6 ==> entered(p, h).step == QcStep::Edit(QcItem::MaxTurns),
        p.menu_cursor == 7 ==> entered(p, h).step == QcStep::Edit(QcItem::Retry),
        p.menu_cursor == 8 ==> entered(p, h).step == QcStep::Edit(QcItem::SessionHeader),
        p.menu_cursor == 9 ==> entered(p, h).step == QcStep::Edit(QcItem::Proxy),
{
    lemma_editor(PanelView { menu_cursor: quick_cfg::digit_place(c), ..p }, c, h);
    lemma_editor(p, c, h);
}

proof fn lemma_editor(p: PanelView, c: char, h: HostView)
    ensures
        forall|i: QcItem| #[trigger] quick_cfg::item_chosen(p, i, h).0.step == QcStep::Edit(i),
        forall|i: QcItem| (#[trigger] quick_cfg::item_chosen(p, i, h)).0.menu_cursor
            == p.menu_cursor,
{
}

/// The arrows move the cursor of the menu by one, and stop at its ends; the key that
/// leaves leaves the panel.
pub proof fn law_menu_is_moved_in(p: PanelView, h: HostView)
    requires
        in_menu(p),
        p.menu_cursor < 10,
    ensures
        quick_cfg::on_key_of(p, KeyCode::Down, h) == (
            PanelView {
                menu_cursor: if p.menu_cursor < 9 {
                    (p.menu_cursor + 1) as usize
                } else {
                    9
                },
                ..p
            },
            QuickView::Idle,
        ),
        quick_cfg::on_key_of(p, KeyCode::Up, h) == (
            PanelView {
                menu_cursor: if p.menu_cursor > 0 {
                    (p.menu_cursor - 1) as usize
                } else {
                    0
                },
                ..p
            },
            QuickView::Idle,
        ),
        quick_cfg::on_key_of(p, KeyCode::Esc, h) == (p, QuickView::Exit),
{
}

/// Opening an editor changes no setting; the list of models is asked for where there is
/// none yet.
pub proof fn law_editors_change_nothing(p: PanelView, item: QcItem, h: HostView)
    ensures
        ({
            let (q, a) = quick_cfg::item_chosen(p, item, h);
            &&& q == (PanelView {
                step: QcStep::Edit(item),
                model_cursor: q.model_cursor,
                protocol_cursor: q.protocol_cursor,
                session_cursor: q.session_cursor,
                retry_cursor: q.retry_cursor,
                proxy_cursor: q.proxy_cursor,
                ..settled(p, q.notice)
            })
            &&& a is FetchModels <==> item == QcItem::Model && p.models.len() == 0
            &&& a is FetchModels ==> {
                &&& a->base_url == p.base_url
                &&& p.api_key.len() > 0 ==> a->api_key == Some(p.api_key)
                &&& p.api_key.len() == 0 ==> a->api_key is None
                &&& p.session_header ==> a->session_header == Some(h.probe)
                &&& !p.session_header ==> a->session_header is None
                &&& a->proxy == settings::effective(p.proxy, h.env_proxy)
            }
            &&& !(a is FetchModels) ==> a == QuickView::Idle
        }),
{
}

// ---------------------------------------------------------------------- editors

/// The panel in the editor of a setting with nothing typed.
pub open spec fn editing(p: PanelView, item: QcItem) -> bool {
    p.step == QcStep::Edit(item) && !p.typing
}

/// In every editor one key saves the setting, one tries the connection that the panel
/// stands at, and one leads back to the menu, to the place of the setting; no setting
/// changes.
pub proof fn law_editors_are_left(p: PanelView, item: QcItem, h: HostView)
    requires
        editing(p, item),
    ensures
        quick_cfg::on_key_of(p, KeyCode::Char('s'), h) == (p, QuickView::Save(item)),
        quick_cfg::on_key_of(p, KeyCode::Char('S'), h) == (p, QuickView::Save(item)),
        ({
            let (q, a) = quick_cfg::on_key_of(p, KeyCode::Char('v'), h);
            &&& q == (PanelView { step: QcStep::Verifying { item }, progress: q.progress, ..p })
            &&& a is Verify
            &&& a->Verify_0.provider_name == p.provider
            &&& a->Verify_0.model == p.model
            &&& a->Verify_0.base_url == p.base_url
            &&& p.api_key.len() > 0 ==> a->Verify_0.api_key == Some(p.api_key)
            &&& p.api_key.len() == 0 ==> a->Verify_0.api_key is None
            &&& a->Verify_0.context_window == p.context_window
            &&& a->Verify_0.protocol == p.protocol
            &&& a->Verify_0.session_header_enabled == p.session_header
            &&& a->Verify_0.retry == p.retry
            &&& a->Verify_0.proxy == settings::effective(p.proxy, h.env_proxy)
        }),
        quick_cfg::on_key_of(p, KeyCode::Esc, h) == (
            PanelView {
                step: QcStep::Menu,
                menu_cursor: match item {
                    QcItem::Provider => 0,
                    QcItem::Model => 1,
                    QcItem::Protocol => 2,
                    QcItem::ApiKey => 3,
                    QcItem::BaseUrl => 4,
                    QcItem::ContextWindow => 5,
                    QcItem::MaxTurns => 6,
                    QcItem::Retry => 7,
                    QcItem::SessionHeader => 8,
                    QcItem::Proxy => 9,
                },
                ..p
            },
            QuickView::Idle,
        ),
{
}

/// In the editor of the model the arrows move over the list, the key that confirms takes
/// the model at the cursor, and one key asks for a name.
pub proof fn law_models_are_chosen(p: PanelView, h: HostView)
    requires
        editing(p, QcItem::Model),
        p.model_cursor < p.models.len(),
        p.models.len() <= usize::MAX,
    ensures
        ({
            let q = entered(p, h);
            q == (PanelView { model: p.models[p.model_cursor as int], notice: q.notice, ..p })
        }),
        quick_cfg::on_key_of(p, KeyCode::Down, h).0 == (PanelView {
            model_cursor: if p.model_cursor + 1 < p.models.len() {
                (p.model_cursor + 1) as usize
            } else {
                p.model_cursor
            },
            ..p
        }),
        quick_cfg::on_key_of(p, KeyCode::Up, h).0 == (PanelView {
            model_cursor: if p.model_cursor > 0 {
                (p.model_cursor - 1) as usize
            } else {
                0
            },
            ..p
        }),
        ({
            let q = quick_cfg::on_key_of(p, KeyCode::Char('m'), h).0;
            q == (PanelView { typing: true, input_buf: Seq::empty(), notice: q.notice, ..p })
        }),
{
}

/// In the editor of the provider the key that confirms makes the provider at the cursor
/// the current one, with the model, key, window, protocol and session header of its own
/// entry; the limits and the proxy stay. For a provider of one's own the endpoint is
/// asked for.
pub proof fn law_providers_are_chosen(p: PanelView, h: HostView, d: DefView)
    requires
        editing(p, QcItem::Provider),
        p.cursor < p.providers.len(),
        p.providers.len() <= usize::MAX,
        d == settings::def_of(p.provider_defs, p.providers[p.cursor as int].0),
    ensures
        ({
            let name = p.providers[p.cursor as int].0;
            let q = entered(p, h);
            &&& name != "custom"@ ==> {
                &&& q.provider == name
                &&& q.model == (match d.model {
                    Some(m) => m,
                    None => Seq::empty(),
                })
                &&& q.api_key == config_ui::key_of(d, h.vars)
                &&& q.context_window == d.context_window
                &&& q.protocol == (match d.protocol {
                    Some(x) => x,
                    None => ProtocolKind::Chat,
                })
                &&& q.session_header == d.session_header
                &&& q.models.len() == 0
                &&& q.base_url == p.base_url
                &&& q.max_turns == p.max_turns && q.retry == p.retry && q.proxy == p.proxy
                &&& q.step == p.step && !q.typing
            }
            &&& name == "custom"@ ==> q == (PanelView {
                typing: true,
                typing_custom_url: true,
                input_buf: Seq::empty(),
                notice: q.notice,
                ..p
            })
        }),
        quick_cfg::on_key_of(p, KeyCode::Down, h).0 == (PanelView {
            cursor: if p.cursor + 1 < p.providers.len() {
                (p.cursor + 1) as usize
            } else {
                p.cursor
            },
            ..p
        }),
        quick_cfg::on_key_of(p, KeyCode::Up, h).0 == (PanelView {
            cursor: if p.cursor > 0 {
                (p.cursor - 1) as usize
            } else {
                0
            },
            ..p
        }),
{
    reveal_strlit("custom");
}

/// In the editors with a list the arrows choose the value at the cursor: the protocol,
/// the retries, the proxy and whether there is a session header. Nothing else changes.
pub proof fn law_values_are_chosen(p: PanelView, h: HostView)
    ensures
        editing(p, QcItem::Protocol) && p.protocol_cursor < 2 ==> {
            &&& quick_cfg::on_key_of(p, KeyCode::Up, h).0 == (PanelView {
                protocol: ProtocolKind::Chat,
                protocol_cursor: 0,
                ..p
            })
            &&& quick_cfg::on_key_of(p, KeyCode::Down, h).0 == (PanelView {
                protocol: ProtocolKind::Response,
                protocol_cursor: 1,
                ..p
            })
        },
        editing(p, QcItem::SessionHeader) && p.session_cursor < 2 ==> {
            let y = quick_cfg::on_key_of(p, KeyCode::Char('y'), h).0;
            let n = quick_cfg::on_key_of(p, KeyCode::Char('n'), h).0;
            &&& quick_cfg::on_key_of(p, KeyCode::Up, h).0 == (PanelView {
                session_header: true,
                session_cursor: 0,
                ..p
            })
            &&& quick_cfg::on_key_of(p, KeyCode::Down, h).0 == (PanelView {
                session_header: false,
                session_cursor: 1,
                ..p
            })
            &&& y == (PanelView {
                session_header: true,
                session_cursor: 0,
                notice: y.notice,
                ..p
            })
            &&& n == (PanelView {
                session_header: false,
                session_cursor: 1,
                notice: n.notice,
                ..p
            })
        },
        editing(p, QcItem::Retry) && p.retry_cursor < 5 ==> {
            let up: usize = if p.retry_cursor > 0 {
                (p.retry_cursor - 1) as usize
            } else {
                0
            };
            let down: usize = if p.retry_cursor < 4 {
                (p.retry_cursor + 1) as usize
            } else {
                4
            };
            &&& quick_cfg::on_key_of(p, KeyCode::Up, h).0 == (PanelView {
                retry_cursor: up,
                retry: listed_retry(up, p.retry),
                ..p
            })
            &&& quick_cfg::on_key_of(p, KeyCode::Down, h).0 == (PanelView {
                retry_cursor: down,
                retry: listed_retry(down, p.retry),
                ..p
            })
        },
        editing(p, QcItem::Proxy) && p.proxy_cursor < 3 ==> {
            let y = quick_cfg::on_key_of(p, KeyCode::Char('y'), h).0;
            let n = quick_cfg::on_key_of(p, KeyCode::Char('n'), h).0;
            let auto = ProxyView { mode: ProxyMode::Auto, url: None };
            let off = ProxyView { mode: ProxyMode::Off, url: None };
            let own = ProxyView { mode: ProxyMode::Manual, url: p.proxy.url };
            &&& y == (PanelView { proxy: auto, proxy_cursor: 0, notice: y.notice, ..p })
            &&& n == (PanelView { proxy: off, proxy_cursor: 1, notice: n.notice, ..p })
            &&& p.proxy_cursor == 0 ==> quick_cfg::on_key_of(p, KeyCode::Down, h).0 == (
            PanelView { proxy: off, proxy_cursor: 1, ..p })
            &&& p.proxy_cursor >= 1 ==> quick_cfg::on_key_of(p, KeyCode::Down, h).0 == (
            PanelView { proxy: own, proxy_cursor: 2, ..p })
            &&& p.proxy_cursor <= 1 ==> quick_cfg::on_key_of(p, KeyCode::Up, h).0 == (
            PanelView { proxy: auto, proxy_cursor: 0, ..p })
            &&& p.proxy_cursor == 2 ==> quick_cfg::on_key_of(p, KeyCode::Up, h).0 == (
            PanelView { proxy: off, proxy_cursor: 1, ..p })
        },
{
}

/// The retries at a place of their list: none, three, five, eight, and at the last place
/// what they are.
pub open spec fn listed_retry(i: usize, r: RetryConfig) -> RetryConfig {
    if i == 0 {
        RetryConfig { enabled: false, max_retries: 0 }
    } else if i == 1 {
        RetryConfig { enabled: true, max_retries: 3 }
    } else if i == 2 {
        RetryConfig { enabled: true, max_retries: 5 }
    } else if i == 3 {
        RetryConfig { enabled: true, max_retries: 8 }
    } else {
        r
    }
}

/// In the editors of texts and numbers one key begins to type: with nothing for the key,
/// so that it is not shown, and else with what is set.
pub proof fn law_typing_begins_with_what_is_set(p: PanelView, h: HostView)
    ensures
        editing(p, QcItem::ApiKey) ==> {
            let q = entered(p, h);
            q == (PanelView { typing: true, input_buf: Seq::empty(), notice: q.notice, ..p })
        },
        editing(p, QcItem::BaseUrl) ==> {
            let q = entered(p, h);
            q == (PanelView { typing: true, input_buf: p.base_url, notice: q.notice, ..p })
        },
        editing(p, QcItem::MaxTurns) ==> {
            let q = entered(p, h);
            q == (PanelView {
                typing: true,
                typing_max_turns: true,
                input_buf: match p.max_turns {
                    Some(n) => text::decimal(n as nat),
                    None => Seq::empty(),
                },
                notice: q.notice,
                ..p
            })
        },
        editing(p, QcItem::ContextWindow) ==> {
            let q = entered(p, h);
            q == (PanelView {
                typing: true,
                typing_context_window: true,
                input_buf: match p.context_window {
                    Some(n) => text::decimal(n as nat),
                    None => Seq::empty(),
                },
                notice: q.notice,
                ..p
            })
        },
        editing(p, QcItem::Retry) ==> {
            let q = quick_cfg::on_key_of(p, KeyCode::Char('e'), h).0;
            q == (PanelView {
                typing: true,
                typing_retry: true,
                input_buf: if p.retry.enabled {
                    text::decimal(p.retry.max_retries as nat)
                } else {
                    Seq::empty()
                },
                notice: q.notice,
                ..p
            })
        },
        editing(p, QcItem::Proxy) ==> {
            let q = entered(p, h);
            q == (PanelView {
                typing: true,
                typing_proxy: true,
                input_buf: match p.proxy.url {
                    Some(u) => u,
                    None => Seq::empty(),
                },
                notice: q.notice,
                ..p
            })
        },
{
}

/// The models that were found are listed in their order, the current one in front where
/// it is not among them, and the cursor stands on it; where they could not be found, a
/// name is typed, beginning with the current one, and the reason is told.
pub proof fn law_models_are_listed(p: PanelView, models: Seq<Seq<char>>, e: Seq<char>, i: int)
    requires
        !(p.step is Verifying),
        p.model.len() > 0,
        models.len() > 0,
        models.len() < usize::MAX,
    ensures
        ({
            let q = quick_cfg::with_models(p, Ok(models));
            &&& models.contains(p.model) ==> q.models == models
            &&& !models.contains(p.model) ==> q.models == seq![p.model] + models
            &&& q.model_cursor < q.models.len() && q.models[q.model_cursor as int] == p.model
            &&& q == (PanelView {
                models: q.models,
                model_cursor: q.model_cursor,
                typing: false,
                notice: q.notice,
                ..p
            })
        }),
        ({
            let q = quick_cfg::with_models(p, Err(e));
            &&& q == (PanelView {
                step: QcStep::Edit(QcItem::Model),
                models: Seq::empty(),
                typing: true,
                input_buf: p.model,
                ..settled(p, q.notice)
            })
            &&& scan::occurs(q.notice, e)
        }),
{
    settings::lemma_text_from(models, p.model, 0);
    let all = quick_cfg::offered(p, models);
    settings::lemma_text_from(all, p.model, 0);
    let k = settings::text_from(models, p.model, 0);
    if models.contains(p.model) {
        let j = choose|j: int| 0 <= j < models.len() && models[j] == p.model;
        if k == models.len() {
            lemma_text_missed(models, p.model, 0, j);
        }
    } else {
        if k < models.len() {
            assert(models.contains(models[k]));
        }
        assert(all =~= seq![p.model] + models);
    }
    if settings::text_from(all, p.model, 0) == all.len() {
        if models.contains(p.model) {
        } else {
            assert(all[0] == p.model);
            lemma_text_missed(all, p.model, 0, 0);
        }
    }
    text_laws::law_parts_occur("模型列表查询失败: "@, e, "\n直接输入模型名(回车继续):"@);
}

pub proof fn lemma_text_missed(v: Seq<Seq<char>>, name: Seq<char>, i: int, j: int)
    requires
        0 <= i <= j < v.len(),
        v[j] == name,
    ensures
        settings::text_from(v, name, i) <= j,
    decreases j - i,
{
    if v[i] != name {
        lemma_text_missed(v, name, i + 1, j);
    }
}

/// A trial that went well leads back to the menu and says that the setting was saved;
/// one that failed leads back to its editor and tells the reason; a setting that was
/// saved without a trial leads to the menu, with a warning where it is one of the
/// connection. No setting changes.
pub proof fn law_outcomes_are_told(p: PanelView, item: QcItem, t: Seq<char>)
    ensures
        ({
            let v = quick_cfg::verified(p, item, t);
            let r = quick_cfg::refused(p, item, t);
            let s = quick_cfg::saved(p, item, t);
            &&& v == (PanelView { step: QcStep::Menu, notice: v.notice, ..p })
            &&& r == (PanelView { step: QcStep::Edit(item), notice: r.notice, ..p })
            &&& s == (PanelView { step: QcStep::Menu, notice: s.notice, ..p })
            &&& scan::occurs(v.notice, t) && scan::occurs(r.notice, t) && scan::occurs(s.notice, t)
            &&& scan::occurs(v.notice, quick_cfg::item_title(item))
            &&& scan::occurs(s.notice, quick_cfg::item_title(item))
            &&& item == QcItem::Provider || item == QcItem::Model || item == QcItem::Protocol
                || item == QcItem::ApiKey || item == QcItem::BaseUrl || item == QcItem::Proxy
                ==> scan::occurs(s.notice, "⚠ 未验证连通"@)
        }),
{
    let e = Seq::<char>::empty();
    let n = quick_cfg::item_title(item);
    let a = "✔ 验证通过:"@;
    let b = "已保存并生效。"@;
    text_laws::law_parts_occur(a + n + b, t, e);
    assert(a + n + b + t + e =~= a + n + b + t);
    text_laws::law_parts_occur(a, n, b + t);
    assert(a + n + (b + t) =~= a + n + b + t);
    text_laws::law_parts_occur("✘ 验证失败:"@, t, "。改完按 v 重试,或 Esc 回菜单。"@);
    let c = if quick_cfg::item_local(item) {
        b
    } else {
        "已保存并生效。⚠ 未验证连通,建议进该项按 v 跑一次验证。"@
    };
    let d = "✔ "@;
    text_laws::law_parts_occur(d + n + c, t, e);
    assert(d + n + c + t + e =~= d + n + c + t);
    text_laws::law_parts_occur(d, n, c + t);
    assert(d + n + (c + t) =~= d + n + c + t);
    if !quick_cfg::item_local(item) {
        let w = "⚠ 未验证连通"@;
        reveal_strlit("已保存并生效。⚠ 未验证连通,建议进该项按 v 跑一次验证。");
        reveal_strlit("⚠ 未验证连通");
        let k = c.len() as int;
        let x = c.subrange(0, 7);
        let y = c.subrange(14, k);
        assert(c =~= x + w + y) by {
            assert(w.len() == 7);
        }
        text_laws::law_parts_occur(x, w, y);
        text_laws::law_parts_of_parts_occur(d + n, c, t, w);
    }
}

/// Where nothing is typed, `k` and `j` do what the arrows do.
#[verifier::rlimit(40)]
pub proof fn law_letters_stand_for_arrows(p: PanelView, h: HostView)
    requires
        !p.typing,
    ensures
        quick_cfg::on_key_of(p, KeyCode::Char('k'), h) == quick_cfg::on_key_of(p, KeyCode::Up, h),
        quick_cfg::on_key_of(p, KeyCode::Char('j'), h) == quick_cfg::on_key_of(p, KeyCode::Down, h),
{
}

/// In the menu and in the lists `e` does what the key that confirms does.
#[verifier::rlimit(40)]
pub proof fn law_letter_stands_for_confirming(p: PanelView, h: HostView)
    requires
        !p.typing,
        p.step == QcStep::Menu || p.step == QcStep::Edit(QcItem::Provider) || p.step
            == QcStep::Edit(QcItem::Model) || p.step == QcStep::Edit(QcItem::Protocol) || p.step
            == QcStep::Edit(QcItem::SessionHeader) || p.step == QcStep::Edit(QcItem::ApiKey)
            || p.step == QcStep::Edit(QcItem::BaseUrl),
    ensures
        quick_cfg::on_key_of(p, KeyCode::Char('e'), h) == quick_cfg::on_key_of(
            p,
            KeyCode::Enter,
            h,
        ),
{
}

/// The letters that save, try, choose or ask for a name mean the same in either case.
#[verifier::rlimit(40)]
pub proof fn law_letters_mean_the_same_in_either_case(p: PanelView, h: HostView)
    requires
        !p.typing,
    ensures
        quick_cfg::on_key_of(p, KeyCode::Char('S'), h) == quick_cfg::on_key_of(
            p,
            KeyCode::Char('s'),
            h,
        ),
        quick_cfg::on_key_of(p, KeyCode::Char('V'), h) == quick_cfg::on_key_of(
            p,
            KeyCode::Char('v'),
            h,
        ),
        quick_cfg::on_key_of(p, KeyCode::Char('Y'), h) == quick_cfg::on_key_of(
            p,
            KeyCode::Char('y'),
            h,
        ),
        quick_cfg::on_key_of(p, KeyCode::Char('N'), h) == quick_cfg::on_key_of(
            p,
            KeyCode::Char('n'),
            h,
        ),
        quick_cfg::on_key_of(p, KeyCode::Char('M'), h) == quick_cfg::on_key_of(
            p,
            KeyCode::Char('m'),
            h,
        ),
{
}

/// In the editors of numbers and of the proxy `t` and `e`, in either case, begin to type.
#[verifier::rlimit(40)]
pub proof fn law_letters_begin_to_type(p: PanelView, h: HostView)
    requires
        !p.typing,
        p.step == QcStep::Edit(QcItem::ContextWindow) || p.step == QcStep::Edit(QcItem::MaxTurns)
            || p.step == QcStep::Edit(QcItem::Retry) || p.step == QcStep::Edit(QcItem::Proxy),
    ensures
        quick_cfg::on_key_of(p, KeyCode::Char('t'), h) == quick_cfg::on_key_of(
            p,
            KeyCode::Char('e'),
            h,
        ),
        quick_cfg::on_key_of(p, KeyCode::Char('T'), h) == quick_cfg::on_key_of(
            p,
            KeyCode::Char('e'),
            h,
        ),
        quick_cfg::on_key_of(p, KeyCode::Char('E'), h) == quick_cfg::on_key_of(
            p,
            KeyCode::Char('e'),
            h,
        ),
{
}

} // verus!
