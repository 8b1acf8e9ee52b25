//! What confirming and choosing do to the settings in the wizard, page by page.

use crate::config_ui;
use crate::config_ui::{ActionView, Step, WizardView};
use crate::input::KeyCode;
use crate::quick_laws;
use crate::scan;
use crate::settings;
use crate::settings::{DefView, HostView, ProtocolKind, ProxyMode, ProxyView, RetryConfig};
use crate::text;
use crate::text_laws;
use vstd::prelude::*;

verus! {

/// A text is being typed, and none of the questions with an answer of their own has
/// been asked.
pub open spec fn plain_typing(w: WizardView) -> bool {
    &&& w.typing
    &&& !w.typing_context_window
    &&& !w.typing_max_turns
    &&& !w.typing_retry
    &&& !w.typing_proxy
}

/// The limit of turns is being typed.
pub open spec fn typing_turns(w: WizardView) -> bool {
    w.typing_max_turns && plain_typing(WizardView { typing_max_turns: false, ..w })
}

/// The context window is being typed.
pub open spec fn typing_window(w: WizardView) -> bool {
    w.typing_context_window && plain_typing(WizardView { typing_context_window: false, ..w })
}

/// The number of retries is being typed.
pub open spec fn typing_retries(w: WizardView) -> bool {
    w.typing_retry && plain_typing(WizardView { typing_retry: false, ..w })
}

/// The address of the proxy is being typed.
pub open spec fn typing_address(w: WizardView) -> bool {
    w.typing_proxy && plain_typing(WizardView { typing_proxy: false, ..w })
}

/// The wizard when nothing is typed any more, with another message.
pub open spec fn settled(w: WizardView, notice: Seq<char>) -> WizardView {
    WizardView {
        typing: false,
        input_buf: Seq::empty(),
        typing_context_window: false,
        typing_max_turns: false,
        typing_retry: false,
        typing_proxy: false,
        notice,
        ..w
    }
}

/// The wizard after the confirming key.
pub open spec fn entered(w: WizardView, h: HostView) -> WizardView {
    config_ui::on_key_of(w, KeyCode::Enter, h).0
}

// ---------------------------------------------------------------------- numbers

/// Confirming the digits of a number on the page of the limit of turns sets the limit
/// to it, and confirming nothing takes the limit away; every other setting is as it was.
pub proof fn law_turns_are_set(w: WizardView, h: HostView, n: usize, a: Seq<char>, b: Seq<char>)
    requires
        typing_turns(w),
        text_laws::blank(a),
        text_laws::blank(b),
    ensures
        w.input_buf == a + text::decimal(n as nat) + b ==> entered(w, h) == (WizardView {
            max_turns: Some(n),
            ..settled(w, entered(w, h).notice)
        }),
        w.input_buf == a ==> entered(w, h) == (WizardView {
            max_turns: None,
            ..settled(w, entered(w, h).notice)
        }),
{
    quick_laws::lemma_typed_number(n as nat, a, b);
    quick_laws::lemma_typed_nothing(a);
}

/// Confirming the digits of a positive number on the page of the context window sets
/// the window to it, and confirming nothing leaves it to the model; every other setting
/// is as it was.
pub proof fn law_window_is_set(w: WizardView, h: HostView, n: usize, a: Seq<char>, b: Seq<char>)
    requires
        typing_window(w),
        text_laws::blank(a),
        text_laws::blank(b),
        n > 0,
    ensures
        w.input_buf == a + text::decimal(n as nat) + b ==> entered(w, h) == (WizardView {
            context_window: Some(n),
            ..settled(w, entered(w, h).notice)
        }),
        w.input_buf == a ==> entered(w, h) == (WizardView {
            context_window: None,
            ..settled(w, entered(w, h).notice)
        }),
{
    quick_laws::lemma_typed_number(n as nat, a, b);
    quick_laws::lemma_typed_nothing(a);
}

/// Confirming the digits of a number on the page of the retries allows so many, but no
/// more than eight; confirming none or nothing turns them off. Every other setting is as
/// it was.
pub proof fn law_retries_are_set(w: WizardView, h: HostView, n: usize, a: Seq<char>, b: Seq<char>)
    requires
        typing_retries(w),
        text_laws::blank(a),
        text_laws::blank(b),
    ensures
        ({
            let q = entered(w, h);
            w.input_buf == a + text::decimal(n as nat) + b ==> q == (WizardView {
                retry: RetryConfig {
                    enabled: n > 0,
                    max_retries: if n > 8 {
                        8
                    } else {
                        n
                    },
                },
                retry_cursor: if n == 0 {
                    0
                } else if n == 3 {
                    1
                } else if n == 5 {
                    2
                } else if n >= 8 {
                    3
                } else {
                    4
                },
                ..settled(w, q.notice)
            })
        }),
        w.input_buf == a ==> entered(w, h) == (WizardView {
            retry: RetryConfig { enabled: false, max_retries: 0 },
            retry_cursor: 0,
            ..settled(w, entered(w, h).notice)
        }),
{
    quick_laws::lemma_typed_number(n as nat, a, b);
    quick_laws::lemma_typed_nothing(a);
}

/// A text that is no number is given back on all three pages of numbers, to be mended,
/// and no setting changes.
pub proof fn law_refused_numbers_are_given_back(w: WizardView, h: HostView, i: int)
    requires
        typing_turns(w) || typing_window(w) || typing_retries(w),
        text_laws::tight(w.input_buf),
        0 <= i < w.input_buf.len(),
        !('0' <= w.input_buf[i] <= '9'),
        i > 0 || w.input_buf[i] != '+' || w.input_buf.len() == 1,
    ensures
        entered(w, h) == (WizardView { notice: entered(w, h).notice, ..w }),
{
    quick_laws::lemma_typed_other(w.input_buf, i);
}

// ------------------------------------------------------------------------ texts

/// Confirming a text on the page of the models sets the model to it and leads to the
/// protocols; a model without a name is asked for again.
pub proof fn law_model_is_set(w: WizardView, h: HostView, a: Seq<char>, t: Seq<char>, b: Seq<char>)
    requires
        plain_typing(w),
        w.step == Step::ModelSelect,
        text_laws::blank(a),
        text_laws::tight(t),
        text_laws::blank(b),
        w.input_buf == a + t + b,
    ensures
        t.len() > 0 ==> entered(w, h) == (WizardView {
            model: t,
            step: Step::ProtocolSelect,
            protocol_cursor: entered(w, h).protocol_cursor,
            ..settled(w, w.notice)
        }),
        t.len() == 0 ==> entered(w, h) == (WizardView {
            typing: true,
            ..settled(w, entered(w, h).notice)
        }),
{
    text_laws::law_trimming_takes_white_space(a, t, b);
}

/// Confirming a text on the page of the key sets the key to it, and the key does not
/// come from the environment any more.
pub proof fn law_key_is_set(w: WizardView, h: HostView, a: Seq<char>, t: Seq<char>, b: Seq<char>)
    requires
        plain_typing(w),
        w.step == Step::ApiKey,
        text_laws::blank(a),
        text_laws::tight(t),
        text_laws::blank(b),
        w.input_buf == a + t + b,
    ensures
        entered(w, h) == (WizardView {
            api_key: t,
            key_from_env: false,
            ..settled(w, entered(w, h).notice)
        }),
{
    text_laws::law_trimming_takes_white_space(a, t, b);
}

/// Confirming an address behind `http://` or `https://` for a provider of one's own sets
/// the endpoint to it and leads to the session header; every other text is asked for
/// again, and no setting changes.
pub proof fn law_endpoint_is_set(
    w: WizardView,
    h: HostView,
    a: Seq<char>,
    t: Seq<char>,
    b: Seq<char>,
    rest: Seq<char>,
)
    requires
        plain_typing(w),
        w.step == Step::Provider,
        w.provider == "custom"@,
        text_laws::blank(a),
        text_laws::tight(t),
        text_laws::blank(b),
        w.input_buf == a + t + b,
    ensures
        t == "http://"@ + rest || t == "https://"@ + rest ==> entered(w, h) == (WizardView {
            base_url: t,
            session_header: false,
            session_cursor: 1,
            step: Step::SessionHeader,
            ..settled(w, w.notice)
        }),
        !("http://"@.is_prefix_of(t)) && !("https://"@.is_prefix_of(t)) ==> entered(w, h) == (
        WizardView { typing: true, ..settled(w, entered(w, h).notice) }),
{
    quick_laws::lemma_scheme(a, t, b, rest);
    reveal_strlit("custom");
}

/// Confirming an address of a proxy takes over its normal form where it has one, and
/// confirming nothing leaves the proxy to the environment; a refused address is given
/// back, and no setting changes.
pub proof fn law_proxy_is_set(w: WizardView, h: HostView, a: Seq<char>, t: Seq<char>, b: Seq<char>)
    requires
        typing_address(w),
        text_laws::blank(a),
        text_laws::tight(t),
        text_laws::blank(b),
        w.input_buf == a + t + b,
    ensures
        t.len() == 0 ==> entered(w, h) == (WizardView {
            proxy: ProxyView { mode: ProxyMode::Auto, url: None },
            proxy_cursor: 0,
            ..settled(w, entered(w, h).notice)
        }),
        match h.proxy_check {
            settings::CheckView::Normal(n) => t.len() > 0 ==> entered(w, h) == (WizardView {
                proxy: ProxyView { mode: ProxyMode::Manual, url: Some(n) },
                proxy_cursor: 2,
                ..settled(w, entered(w, h).notice)
            }),
            _ => t.len() > 0 ==> entered(w, h) == (WizardView {
                input_buf: t,
                notice: entered(w, h).notice,
                ..w
            }),
        },
{
    let e = Seq::<char>::empty();
    text_laws::law_trimming_takes_white_space(a, t, b);
    text_laws::law_trimming_takes_white_space(e, t, e);
    assert(e + t + e =~= t);
}

/// While a text is typed, each character goes behind it, the key that deletes takes the
/// last one back, and the key that leaves drops the text; no setting changes.
pub proof fn law_characters_are_typed(w: WizardView, c: char, h: HostView)
    requires
        w.typing,
    ensures
        config_ui::on_key_of(w, KeyCode::Char(c), h) == (
            WizardView { input_buf: w.input_buf.push(c), ..w },
            ActionView::Idle,
        ),
        config_ui::on_key_of(
            WizardView { input_buf: w.input_buf.push(c), ..w },
            KeyCode::Backspace,
            h,
        ) == (w, ActionView::Idle),
        config_ui::on_key_of(w, KeyCode::Esc, h) == (settled(w, w.notice), ActionView::Idle),
{
    assert(w.input_buf.push(c).drop_last() =~= w.input_buf);
}

// ------------------------------------------------------------------------ pages

/// The key that confirms leads through the pages in their order: from the protocol over
/// the key, the window, the turns and the retries to the proxy. No setting changes.
pub proof fn law_pages_follow_each_other(w: WizardView, h: HostView)
    requires
        !w.typing,
    ensures
        w.step == Step::ProtocolSelect ==> entered(w, h) == (WizardView {
            step: Step::ApiKey,
            ..w
        }),
        w.step == Step::ApiKey ==> entered(w, h) == (WizardView { step: Step::ContextWindow, ..w }),
        w.step == Step::ContextWindow ==> entered(w, h) == (WizardView {
            step: Step::MaxTurns,
            ..w
        }),
        w.step == Step::MaxTurns ==> entered(w, h) == (WizardView {
            step: Step::Retry,
            retry_cursor: entered(w, h).retry_cursor,
            ..w
        }),
        w.step == Step::Retry && w.retry_cursor < 4 ==> entered(w, h) == (WizardView {
            step: Step::Proxy,
            proxy_cursor: entered(w, h).proxy_cursor,
            ..w
        }),
{
}

/// The provider at the cursor becomes the current one, at its endpoint and with the
/// model, key, window, protocol and session header of its own entry, unless it was the
/// current one, whose settings stay; the limits and the proxy stay in any case. A
/// provider of one's own is asked for its endpoint.
pub proof fn law_providers_are_chosen(w: WizardView, h: HostView, d: DefView)
    requires
        !w.typing,
        w.step == Step::Provider,
        w.cursor < w.providers.len(),
        w.providers.len() <= usize::MAX,
        d == settings::def_of(w.provider_defs, w.providers[w.cursor as int].0),
    ensures
        ({
            let name = w.providers[w.cursor as int].0;
            let q = entered(w, h);
            &&& q.provider == name
            &&& q.max_turns == w.max_turns && q.retry == w.retry && q.proxy == w.proxy
            &&& name != w.provider ==> {
                &&& q.model == (match d.model {
                    Some(m) => m,
                    None => Seq::empty(),
                })
                &&& q.api_key == config_ui::key_of(d, h.vars)
                &&& q.context_window == d.context_window
                &&& q.protocol == (match d.protocol {
                    Some(x) => x,
                    None => ProtocolKind::Chat,
                })
                &&& q.session_header == d.session_header
                &&& q.models.len() == 0
            }
            &&& name == w.provider ==> q.model == w.model && q.api_key == w.api_key
                && q.context_window == w.context_window && q.protocol == w.protocol
                && q.session_header == w.session_header && q.models == w.models
            &&& name != "custom"@ ==> q.base_url == w.providers[w.cursor as int].1 && q.step
                == Step::SessionHeader && !q.typing
            &&& name == "custom"@ ==> q.typing && q.step == Step::Provider && q.input_buf.len()
                == 0 && q.base_url == w.base_url
        }),
        config_ui::on_key_of(w, KeyCode::Down, h).0 == (WizardView {
            cursor: if w.cursor + 1 < w.providers.len() {
                (w.cursor + 1) as usize
            } else {
                w.cursor
            },
            ..w
        }),
        config_ui::on_key_of(w, KeyCode::Up, h).0 == (WizardView {
            cursor: if w.cursor > 0 {
                (w.cursor - 1) as usize
            } else {
                0
            },
            ..w
        }),
{
    reveal_strlit("custom");
}

/// What the server is asked for its models with: the endpoint, the key where there is
/// one, and the session header where it is on.
pub open spec fn asks(a: ActionView, w: WizardView, header: bool, h: HostView) -> bool {
    &&& a is FetchModels
    &&& a->base_url == w.base_url
    &&& w.api_key.len() > 0 ==> a->api_key == Some(w.api_key)
    &&& w.api_key.len() == 0 ==> a->api_key is None
    &&& header ==> a->session_header == Some(h.probe)
    &&& !header ==> a->session_header is None
    &&& a->proxy == settings::effective(w.proxy, h.env_proxy)
}

/// On the page of the session header `y` and `n` switch it on and off and ask the server
/// for its models; the key that confirms asks with what is set.
pub proof fn law_session_header_is_chosen(w: WizardView, h: HostView)
    requires
        !w.typing,
        w.step == Step::SessionHeader,
    ensures
        ({
            let y = config_ui::on_key_of(w, KeyCode::Char('y'), h);
            let n = config_ui::on_key_of(w, KeyCode::Char('n'), h);
            let q = config_ui::on_key_of(w, KeyCode::Enter, h);
            &&& y.0 == (WizardView {
                session_header: true,
                session_cursor: 0,
                step: Step::Querying,
                progress: y.0.progress,
                ..w
            })
            &&& n.0 == (WizardView {
                session_header: false,
                session_cursor: 1,
                step: Step::Querying,
                progress: n.0.progress,
                ..w
            })
            &&& q.0 == (WizardView { step: Step::Querying, progress: q.0.progress, ..w })
            &&& asks(y.1, w, true, h) && asks(n.1, w, false, h) && asks(
                q.1,
                w,
                w.session_header,
                h,
            )
        }),
        w.session_cursor < 2 ==> config_ui::on_key_of(w, KeyCode::Up, h).0 == (WizardView {
            session_header: true,
            session_cursor: 0,
            ..w
        }),
        w.session_cursor < 2 ==> config_ui::on_key_of(w, KeyCode::Down, h).0 == (WizardView {
            session_header: false,
            session_cursor: 1,
            ..w
        }),
{
}

/// On the page of the models the arrows move over the list, and the key that confirms
/// takes the model at the cursor and leads to the protocols.
pub proof fn law_models_are_chosen(w: WizardView, h: HostView)
    requires
        !w.typing,
        w.step == Step::ModelSelect,
        w.model_cursor < w.models.len(),
        w.models.len() <= usize::MAX,
    ensures
        entered(w, h) == (WizardView {
            model: w.models[w.model_cursor as int],
            step: Step::ProtocolSelect,
            protocol_cursor: entered(w, h).protocol_cursor,
            ..w
        }),
        config_ui::on_key_of(w, KeyCode::Down, h).0 == (WizardView {
            model_cursor: if w.model_cursor + 1 < w.models.len() {
                (w.model_cursor + 1) as usize
            } else {
                w.model_cursor
            },
            ..w
        }),
        config_ui::on_key_of(w, KeyCode::Up, h).0 == (WizardView {
            model_cursor: if w.model_cursor > 0 {
                (w.model_cursor - 1) as usize
            } else {
                0
            },
            ..w
        }),
        config_ui::on_key_of(w, KeyCode::Char('m'), h).0 == (WizardView {
            typing: true,
            input_buf: Seq::empty(),
            ..w
        }),
{
}

/// On the pages with a list the arrows choose the value at the cursor: the protocol, the
/// retries and the proxy. Nothing else changes.
pub proof fn law_values_are_chosen(w: WizardView, h: HostView)
    requires
        !w.typing,
    ensures
        w.step == Step::ProtocolSelect && w.protocol_cursor < 2 ==> {
            &&& config_ui::on_key_of(w, KeyCode::Up, h).0 == (WizardView {
                protocol: ProtocolKind::Chat,
                protocol_cursor: 0,
                ..w
            })
            &&& config_ui::on_key_of(w, KeyCode::Down, h).0 == (WizardView {
                protocol: ProtocolKind::Response,
                protocol_cursor: 1,
                ..w
            })
        },
        w.step == Step::Retry && w.retry_cursor < 5 ==> {
            let up: usize = if w.retry_cursor > 0 {
                (w.retry_cursor - 1) as usize
            } else {
                0
            };
            let down: usize = if w.retry_cursor < 4 {
                (w.retry_cursor + 1) as usize
            } else {
                4
            };
            &&& config_ui::on_key_of(w, KeyCode::Up, h).0 == (WizardView {
                retry_cursor: up,
                retry: quick_laws::listed_retry(up, w.retry),
                ..w
            })
            &&& config_ui::on_key_of(w, KeyCode::Down, h).0 == (WizardView {
                retry_cursor: down,
                retry: quick_laws::listed_retry(down, w.retry),
                ..w
            })
        },
        w.step == Step::Proxy && w.proxy_cursor < 3 ==> {
            let y = config_ui::on_key_of(w, KeyCode::Char('y'), h).0;
            let n = config_ui::on_key_of(w, KeyCode::Char('n'), h).0;
            let auto = ProxyView { mode: ProxyMode::Auto, url: None };
            let off = ProxyView { mode: ProxyMode::Off, url: None };
            let own = ProxyView { mode: ProxyMode::Manual, url: w.proxy.url };
            &&& y == (WizardView { proxy: auto, proxy_cursor: 0, notice: y.notice, ..w })
            &&& n == (WizardView { proxy: off, proxy_cursor: 1, notice: n.notice, ..w })
            &&& w.proxy_cursor == 0 ==> config_ui::on_key_of(w, KeyCode::Down, h).0 == (
            WizardView { proxy: off, proxy_cursor: 1, ..w })
            &&& w.proxy_cursor >= 1 ==> config_ui::on_key_of(w, KeyCode::Down, h).0 == (
            WizardView { proxy: own, proxy_cursor: 2, ..w })
            &&& w.proxy_cursor <= 1 ==> config_ui::on_key_of(w, KeyCode::Up, h).0 == (
            WizardView { proxy: auto, proxy_cursor: 0, ..w })
            &&& w.proxy_cursor == 2 ==> config_ui::on_key_of(w, KeyCode::Up, h).0 == (
            WizardView { proxy: off, proxy_cursor: 1, ..w })
        },
{
}

/// A digit begins to type a number on the pages of numbers, and another key begins with
/// what is set; the key is typed beginning with what it was.
pub proof fn law_typing_begins(w: WizardView, c: char, h: HostView)
    requires
        !w.typing,
        '0' <= c <= '9',
    ensures
        w.step == Step::ContextWindow ==> {
            let q = config_ui::on_key_of(w, KeyCode::Char(c), h).0;
            let e = config_ui::on_key_of(w, KeyCode::Char('e'), h).0;
            let asked = WizardView { typing: true, typing_context_window: true, ..w };
            &&& q == (WizardView { input_buf: seq![c], notice: q.notice, ..asked })
            &&& e == (WizardView {
                input_buf: match w.context_window {
                    Some(n) => text::decimal(n as nat),
                    None => Seq::empty(),
                },
                notice: e.notice,
                ..asked
            })
        },
        w.step == Step::MaxTurns ==> {
            let q = config_ui::on_key_of(w, KeyCode::Char(c), h).0;
            let e = config_ui::on_key_of(w, KeyCode::Char('e'), h).0;
            let asked = WizardView { typing: true, typing_max_turns: true, ..w };
            &&& q == (WizardView { input_buf: seq![c], notice: q.notice, ..asked })
            &&& e == (WizardView {
                input_buf: match w.max_turns {
                    Some(n) => text::decimal(n as nat),
                    None => Seq::empty(),
                },
                notice: e.notice,
                ..asked
            })
        },
        w.step == Step::Retry ==> {
            let q = config_ui::on_key_of(w, KeyCode::Char(c), h).0;
            let e = config_ui::on_key_of(w, KeyCode::Char('e'), h).0;
            let asked = WizardView { typing: true, typing_retry: true, ..w };
            &&& q == (WizardView { input_buf: seq![c], notice: q.notice, ..asked })
            &&& e == (WizardView {
                input_buf: if w.retry.enabled {
                    text::decimal(w.retry.max_retries as nat)
                } else {
                    Seq::empty()
                },
                notice: e.notice,
                ..asked
            })
        },
        w.step == Step::Proxy ==> {
            let e = entered(w, h);
            e == (WizardView {
                typing: true,
                typing_proxy: true,
                input_buf: match w.proxy.url {
                    Some(u) => u,
                    None => Seq::empty(),
                },
                notice: e.notice,
                ..w
            })
        },
        w.step == Step::ApiKey ==> config_ui::on_key_of(w, KeyCode::Char('e'), h).0 == (
        WizardView { typing: true, input_buf: w.api_key, api_key: Seq::empty(), ..w }),
{
}

/// From the pages of the key, the window and the proxy one key tries the connection that
/// the wizard stands at; no setting changes.
pub proof fn law_connection_is_tried(w: WizardView, h: HostView)
    requires
        !w.typing,
        w.step == Step::ApiKey || w.step == Step::ContextWindow || w.step == Step::Proxy,
    ensures
        ({
            let (q, a) = config_ui::on_key_of(w, KeyCode::Char('s'), h);
            &&& q == (WizardView { step: Step::Verifying, progress: q.progress, ..w })
            &&& a is Verify
            &&& a->Verify_0.provider_name == w.provider
            &&& a->Verify_0.model == w.model
            &&& a->Verify_0.base_url == w.base_url
            &&& w.api_key.len() > 0 ==> a->Verify_0.api_key == Some(w.api_key)
            &&& w.api_key.len() == 0 ==> a->Verify_0.api_key is None
            &&& a->Verify_0.context_window == w.context_window
            &&& a->Verify_0.protocol == w.protocol
            &&& a->Verify_0.session_header_enabled == w.session_header
            &&& a->Verify_0.retry == w.retry
            &&& a->Verify_0.proxy == settings::effective(w.proxy, h.env_proxy)
        }),
{
}

/// The models that were found are listed in their order, the current one in front where
/// it is not among them, and the cursor stands on it; where none were found, a name is
/// typed, beginning with the current one, and the reason is told.
pub proof fn law_models_are_listed(w: WizardView, models: Seq<Seq<char>>, e: Seq<char>)
    requires
        w.model.len() > 0,
        models.len() > 0,
        models.len() < usize::MAX,
    ensures
        ({
            let q = config_ui::with_models(w, Ok(models));
            &&& models.contains(w.model) ==> q.models == models
            &&& !models.contains(w.model) ==> q.models == seq![w.model] + models
            &&& q.model_cursor < q.models.len() && q.models[q.model_cursor as int] == w.model
            &&& q == (WizardView {
                step: Step::ModelSelect,
                models: q.models,
                model_cursor: q.model_cursor,
                typing: false,
                notice: q.notice,
                ..w
            })
        }),
        ({
            let q = config_ui::with_models(w, Err(e));
            &&& q == (WizardView {
                step: Step::ModelSelect,
                models: Seq::empty(),
                typing: true,
                input_buf: w.model,
                notice: q.notice,
                ..w
            })
            &&& scan::occurs(q.notice, e)
        }),
        ({
            let q = config_ui::with_models(w, Ok(Seq::empty()));
            q == (WizardView {
                step: Step::ModelSelect,
                models: Seq::empty(),
                typing: true,
                input_buf: w.model,
                notice: q.notice,
                ..w
            })
        }),
{
    settings::lemma_text_from(models, w.model, 0);
    let all = config_ui::offered(w, models);
    settings::lemma_text_from(all, w.model, 0);
    let k = settings::text_from(models, w.model, 0);
    if models.contains(w.model) {
        let j = choose|j: int| 0 <= j < models.len() && models[j] == w.model;
        quick_laws::lemma_text_missed(models, w.model, 0, j);
    } else {
        if k < models.len() {
            assert(models.contains(models[k]));
        }
        assert(all =~= seq![w.model] + models);
        assert(all[0] == w.model);
        quick_laws::lemma_text_missed(all, w.model, 0, 0);
    }
    text_laws::law_parts_occur("模型列表查询失败: "@, e, "\n直接输入模型名(回车继续):"@);
}

/// The outcome of a trial is told with its reason, and leads back to the page of the
/// key; no setting changes.
pub proof fn law_outcome_is_told(w: WizardView, ok: bool, m: Seq<char>)
    ensures
        ({
            let q = config_ui::with_verdict(w, ok, m);
            &&& q == (WizardView { step: Step::ApiKey, notice: q.notice, ..w })
            &&& scan::occurs(q.notice, m)
            &&& q.notice.len() > 0 && (q.notice[0] == '✔' <==> ok)
        }),
{
    let e = Seq::<char>::empty();
    reveal_strlit("✔ 验证通过:");
    reveal_strlit("✘ 验证失败:");
    text_laws::law_parts_occur("✔ 验证通过:"@, m, e);
    assert("✔ 验证通过:"@ + m + e =~= "✔ 验证通过:"@ + m);
    text_laws::law_parts_occur(
        "✘ 验证失败:"@,
        m,
        "\n改完按 s 重新验证,或 Esc 退出检查"@,
    );
}

/// A pasted text without line ends is taken whole, and of others the line ends are
/// dropped.
pub proof fn law_pasted_texts_are_one_line(a: Seq<char>, c: char)
    ensures
        config_ui::one_line(Seq::empty()).len() == 0,
        c == '\n' || c == '\r' ==> config_ui::one_line(a.push(c)) == config_ui::one_line(a),
        c != '\n' && c != '\r' ==> config_ui::one_line(a.push(c)) == config_ui::one_line(a).push(c),
{
    assert(a.push(c).drop_last() =~= a);
}

/// Where nothing is typed, `k` and `j` do what the arrows do, `e` does what the key that
/// confirms does in lists, and the letters that mean something mean the same in either
/// case.
pub proof fn law_letters_stand_for_keys(w: WizardView, h: HostView)
    requires
        !w.typing,
    ensures
        config_ui::on_key_of(w, KeyCode::Char('k'), h) == config_ui::on_key_of(w, KeyCode::Up, h),
        config_ui::on_key_of(w, KeyCode::Char('j'), h) == config_ui::on_key_of(w, KeyCode::Down, h),
        w.step == Step::Provider || w.step == Step::SessionHeader || w.step == Step::ModelSelect
            || w.step == Step::ProtocolSelect ==> config_ui::on_key_of(w, KeyCode::Char('e'), h)
            == config_ui::on_key_of(w, KeyCode::Enter, h),
        config_ui::on_key_of(w, KeyCode::Char('S'), h) == config_ui::on_key_of(
            w,
            KeyCode::Char('s'),
            h,
        ),
        config_ui::on_key_of(w, KeyCode::Char('Y'), h) == config_ui::on_key_of(
            w,
            KeyCode::Char('y'),
            h,
        ),
        config_ui::on_key_of(w, KeyCode::Char('N'), h) == config_ui::on_key_of(
            w,
            KeyCode::Char('n'),
            h,
        ),
        config_ui::on_key_of(w, KeyCode::Char('M'), h) == config_ui::on_key_of(
            w,
            KeyCode::Char('m'),
            h,
        ),
        config_ui::on_key_of(w, KeyCode::Char('T'), h) == config_ui::on_key_of(
            w,
            KeyCode::Char('t'),
            h,
        ),
        w.step == Step::ContextWindow || w.step == Step::MaxTurns || w.step == Step::Retry || w.step
            == Step::Proxy ==> config_ui::on_key_of(w, KeyCode::Char('t'), h)
            == config_ui::on_key_of(w, KeyCode::Char('e'), h) && config_ui::on_key_of(
            w,
            KeyCode::Char('E'),
            h,
        ) == config_ui::on_key_of(w, KeyCode::Char('e'), h),
        w.step == Step::MaxTurns ==> config_ui::on_key_of(w, KeyCode::Char('s'), h)
            == config_ui::on_key_of(w, KeyCode::Enter, h),
{
}

} // verus!
