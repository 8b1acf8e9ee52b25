//! What is found in lists of settings, what their values stand for, and what a
//! configuration fills in.

use crate::config_ui;
use crate::config_ui::WizardView;
use crate::quick_cfg;
use crate::quick_cfg::PanelView;
use crate::settings;
use crate::settings::{
    ConfigView, DefView, EffectiveView, ProtocolKind, ProxyMode, ProxyView, RetryConfig,
};
use crate::text;
use crate::text_laws;
use vstd::prelude::*;

verus! {

// ------------------------------------------------------------------------- lists

/// The entry of a provider is the first with its name, and an empty one where there is
/// none.
pub proof fn law_entries_are_found(v: Seq<(Seq<char>, DefView)>, name: Seq<char>, i: int)
    requires
        0 <= i <= v.len(),
        i < v.len() ==> v[i].0 == name,
        forall|j: int| 0 <= j < i ==> (#[trigger] v[j]).0 != name,
    ensures
        i < v.len() ==> settings::def_of(v, name) == v[i].1,
        i == v.len() ==> settings::def_of(v, name) == (DefView {
            base_url: None,
            model: None,
            api_key_env: None,
            api_key: None,
            context_window: None,
            protocol: None,
            session_header: false,
        }),
    decreases v.len(),
{
    if v.len() > 0 && i > 0 {
        assert(v[0].0 != name);
        let t = v.skip(1);
        assert forall|j: int| 0 <= j < i - 1 implies (#[trigger] t[j]).0 != name by {
            assert(t[j] == v[j + 1]);
        }
        if i < v.len() {
            assert(t[i - 1] == v[i]);
        }
        law_entries_are_found(t, name, i - 1);
    }
}

/// The value of a variable is that of the first with its name, and none where there is
/// none.
pub proof fn law_variables_are_found(v: Seq<(Seq<char>, Seq<char>)>, name: Seq<char>, i: int)
    requires
        0 <= i <= v.len(),
        i < v.len() ==> v[i].0 == name,
        forall|j: int| 0 <= j < i ==> (#[trigger] v[j]).0 != name,
    ensures
        i < v.len() ==> settings::var_of(v, name) == Some(v[i].1),
        i == v.len() ==> settings::var_of(v, name) is None,
    decreases v.len(),
{
    if v.len() > 0 && i > 0 {
        assert(v[0].0 != name);
        let t = v.skip(1);
        assert forall|j: int| 0 <= j < i - 1 implies (#[trigger] t[j]).0 != name by {
            assert(t[j] == v[j + 1]);
        }
        if i < v.len() {
            assert(t[i - 1] == v[i]);
        }
        law_variables_are_found(t, name, i - 1);
    }
}

/// The place of a provider is that of the first with its name, and of a model that of
/// the first that is equal; behind the list where there is none.
pub proof fn law_places_are_found(
    v: Seq<(Seq<char>, Seq<char>, Seq<char>)>,
    w: Seq<Seq<char>>,
    name: Seq<char>,
    i: int,
)
    ensures
        0 <= i <= v.len() && (i < v.len() ==> v[i].0 == name) && (forall|j: int|
            0 <= j < i ==> (#[trigger] v[j]).0 != name) ==> settings::choice_from(v, name, 0) == i,
        0 <= i <= w.len() && (i < w.len() ==> w[i] == name) && (forall|j: int|
            0 <= j < i ==> (#[trigger] w[j]) != name) ==> settings::text_from(w, name, 0) == i,
{
    if 0 <= i <= v.len() && (i < v.len() ==> v[i].0 == name) && (forall|j: int|
        0 <= j < i ==> (#[trigger] v[j]).0 != name) {
        lemma_choice(v, name, i, 0);
    }
    if 0 <= i <= w.len() && (i < w.len() ==> w[i] == name) && (forall|j: int|
        0 <= j < i ==> (#[trigger] w[j]) != name) {
        lemma_text(w, name, i, 0);
    }
}

proof fn lemma_choice(
    v: Seq<(Seq<char>, Seq<char>, Seq<char>)>,
    name: Seq<char>,
    i: int,
    from: int,
)
    requires
        0 <= from <= i <= v.len(),
        i < v.len() ==> v[i].0 == name,
        forall|j: int| 0 <= j < i ==> (#[trigger] v[j]).0 != name,
    ensures
        settings::choice_from(v, name, from) == i,
    decreases i - from,
{
    if from < i {
        assert(v[from].0 != name);
        lemma_choice(v, name, i, from + 1);
    }
}

proof fn lemma_text(w: Seq<Seq<char>>, name: Seq<char>, i: int, from: int)
    requires
        0 <= from <= i <= w.len(),
        i < w.len() ==> w[i] == name,
        forall|j: int| 0 <= j < i ==> (#[trigger] w[j]) != name,
    ensures
        settings::text_from(w, name, from) == i,
    decreases i - from,
{
    if from < i {
        assert(w[from] != name);
        lemma_text(w, name, i, from + 1);
    }
}

/// The lists of values: two protocols, the retries none, three, five, eight and any
/// other number, and the proxy of the environment, none and one of one's own.
pub proof fn law_values_have_places(p: ProtocolKind, r: RetryConfig, x: ProxyView)
    ensures
        settings::protocol_at(0) == ProtocolKind::Chat,
        settings::protocol_at(1) == ProtocolKind::Response,
        settings::protocol_at(settings::protocol_index(p)) == p,
        settings::retry_at(0) == Some(RetryConfig { enabled: false, max_retries: 0 }),
        settings::retry_at(1) == Some(RetryConfig { enabled: true, max_retries: 3 }),
        settings::retry_at(2) == Some(RetryConfig { enabled: true, max_retries: 5 }),
        settings::retry_at(3) == Some(RetryConfig { enabled: true, max_retries: 8 }),
        settings::retry_at(4) is None,
        settings::retry_index(r) < 4 && r.enabled ==> settings::retry_at(settings::retry_index(r))
            == Some(r),
        !r.enabled ==> settings::retry_index(r) == 0,
        settings::proxy_at(0, x.url) == (ProxyView { mode: ProxyMode::Auto, url: None }),
        settings::proxy_at(1, x.url) == (ProxyView { mode: ProxyMode::Off, url: None }),
        settings::proxy_at(2, x.url) == (ProxyView { mode: ProxyMode::Manual, url: x.url }),
        settings::proxy_at(settings::mode_index(x.mode), x.url).mode == x.mode,
{
}

/// The proxy that is used: none where it is off, that of the environment where that is
/// followed or no address was given, and else the address, without white space around
/// it.
pub proof fn law_proxy_that_is_used(
    env: Option<Seq<char>>,
    a: Seq<char>,
    t: Seq<char>,
    b: Seq<char>,
    url: Option<Seq<char>>,
)
    requires
        text_laws::blank(a),
        text_laws::tight(t),
        text_laws::blank(b),
        t.len() > 0,
    ensures
        ({
            let from_env = match env {
                Some(e) => EffectiveView::Via(e),
                None => EffectiveView::Direct,
            };
            &&& settings::effective(ProxyView { mode: ProxyMode::Off, url }, env)
                == EffectiveView::Direct
            &&& settings::effective(ProxyView { mode: ProxyMode::Auto, url }, env) == from_env
            &&& settings::effective(
                ProxyView { mode: ProxyMode::Manual, url: Some(a + t + b) },
                env,
            ) == EffectiveView::Via(t)
            &&& settings::effective(ProxyView { mode: ProxyMode::Manual, url: None }, env)
                == from_env
            &&& settings::effective(ProxyView { mode: ProxyMode::Manual, url: Some(a) }, env)
                == from_env
        }),
{
    let e = Seq::<char>::empty();
    text_laws::law_trimming_takes_white_space(a, t, b);
    text_laws::law_trimming_takes_white_space(a, e, e);
    assert(a + e + e =~= a);
}

// ------------------------------------------------------------------------- shown

/// How the numbers are shown: a limit of turns with its number, or that it is the
/// default or none; retries with their number, or that they are off; a window with its
/// number and the thousands or millions of it.
pub proof fn law_numbers_are_shown(n: usize, d: usize)
    ensures
        n > 0 ==> settings::turns_shown(Some(n), d) == text::decimal(n as nat) + " 轮"@,
        settings::turns_shown(Some(0), d) == "不限"@,
        settings::turns_shown(None, d) == "默认("@ + text::decimal(d as nat) + " 轮)"@,
        settings::retry_shown(RetryConfig { enabled: true, max_retries: n })
            == "开启(失败后追加 "@ + text::decimal(n as nat) + " 次)"@,
        settings::retry_shown(RetryConfig { enabled: false, max_retries: n }) == "关闭"@,
        n < 1000 ==> settings::window_shown(Some(n)) == text::decimal(n as nat),
        1000 <= n < 1000000 ==> settings::window_shown(Some(n)) == text::decimal(n as nat)
            + "(约 "@ + text::decimal((n / 1000) as nat) + "k)"@,
        1000000 <= n ==> settings::window_shown(Some(n)) == text::decimal(n as nat) + "(约 "@
            + text::decimal((n / 1000000) as nat) + "M)"@,
{
}

// --------------------------------------------------------------- configurations

/// What a configuration says of the current provider: the name that it gives, or else
/// the one that it resolves to; its own key, or else that of the provider's entry, and
/// never one of the environment; its own protocol, or else that of the entry, or else
/// chat.
pub proof fn law_configurations_are_read(c: ConfigView, d: DefView, s: Seq<char>)
    requires
        s.len() > 0,
    ensures
        c.provider == Some(s) ==> config_ui::config_provider(c) == Some(s),
        (c.provider is None || c.provider == Some(Seq::<char>::empty())) && c.resolved is Some
            ==> config_ui::config_provider(c) == Some(c.resolved->Some_0.provider_name),
        (c.provider is None || c.provider == Some(Seq::<char>::empty())) && c.resolved is None
            ==> config_ui::config_provider(c) is None,
        c.api_key == Some(s) ==> config_ui::config_key(c, d) == s && !config_ui::config_key_in_env(
            c,
            d,
        ),
        c.api_key is None && d.api_key == Some(s) ==> config_ui::config_key(c, d) == s
            && !config_ui::config_key_in_env(c, d),
        c.api_key is None && d.api_key is None ==> config_ui::config_key(c, d).len() == 0 && (
        config_ui::config_key_in_env(c, d) <==> d.api_key_env is Some),
        c.protocol is Some ==> config_ui::config_protocol(c, d) == c.protocol->Some_0,
        c.protocol is None && d.protocol is Some ==> config_ui::config_protocol(c, d)
            == d.protocol->Some_0,
        c.protocol is None && d.protocol is None ==> config_ui::config_protocol(c, d)
            == ProtocolKind::Chat,
        c.retry.max_retries <= 8 ==> config_ui::config_retry(c.retry) == c.retry,
        c.retry.max_retries > 8 ==> config_ui::config_retry(c.retry) == (RetryConfig {
            enabled: c.retry.enabled,
            max_retries: 8,
        }),
        c.proxy.mode == ProxyMode::Manual ==> config_ui::config_proxy(c.proxy) == c.proxy,
        c.proxy.mode != ProxyMode::Manual ==> config_ui::config_proxy(c.proxy) == (ProxyView {
            mode: c.proxy.mode,
            url: None,
        }),
{
}

/// A configuration fills in every setting of the panel, and of the wizard, from itself
/// and from the entry of its provider; what is typed and what is shown beside stays.
pub proof fn law_configurations_are_filled_in(p: PanelView, w: WizardView, c: ConfigView, s: Seq<char>)
    requires
        c.provider == Some(s),
        s.len() > 0,
        c.resolved is Some,
    ensures
        ({
            let d = settings::def_of(c.providers, s);
            let e = c.resolved->Some_0;
            let q = quick_cfg::with_config(p, c);
            q == (PanelView {
                provider: s,
                cursor: q.cursor,
                model: e.model,
                base_url: e.base_url,
                provider_defs: c.providers,
                api_key: config_ui::config_key(c, d),
                key_from_env: config_ui::config_key_in_env(c, d),
                key_env_name: q.key_env_name,
                context_window: d.context_window,
                protocol: config_ui::config_protocol(c, d),
                protocol_cursor: q.protocol_cursor,
                session_header: d.session_header,
                session_cursor: if d.session_header {
                    0
                } else {
                    1
                },
                max_turns: c.max_turns,
                retry: config_ui::config_retry(c.retry),
                retry_cursor: q.retry_cursor,
                proxy: config_ui::config_proxy(c.proxy),
                proxy_cursor: q.proxy_cursor,
                ..p
            })
        }),
        ({
            let d = settings::def_of(c.providers, s);
            let e = c.resolved->Some_0;
            let q = config_ui::with_config(w, c);
            q == (WizardView {
                provider: s,
                cursor: q.cursor,
                model: e.model,
                base_url: e.base_url,
                provider_defs: c.providers,
                api_key: config_ui::config_key(c, d),
                key_from_env: config_ui::config_key_in_env(c, d),
                context_window: d.context_window,
                protocol: config_ui::config_protocol(c, d),
                protocol_cursor: q.protocol_cursor,
                session_header: d.session_header,
                session_cursor: if d.session_header {
                    0
                } else {
                    1
                },
                max_turns: c.max_turns,
                retry: config_ui::config_retry(c.retry),
                retry_cursor: q.retry_cursor,
                proxy: config_ui::config_proxy(c.proxy),
                proxy_cursor: q.proxy_cursor,
                ..w
            })
        }),
{
}

/// The key of a provider is that of its entry, or else the value of the variable that
/// the entry names, or else none.
pub proof fn law_keys_of_providers(d: DefView, vars: Seq<(Seq<char>, Seq<char>)>, s: Seq<char>)
    requires
        s.len() > 0,
    ensures
        d.api_key == Some(s) ==> config_ui::key_of(d, vars) == s,
        d.api_key is None && d.api_key_env == Some(s) ==> config_ui::key_of(d, vars) == (
        match settings::var_of(vars, s) {
            Some(v) => v,
            None => Seq::empty(),
        }),
        d.api_key is None && d.api_key_env is None ==> config_ui::key_of(d, vars).len() == 0,
{
}

/// The providers to choose from are those that are known, in their order, and behind
/// them one that is typed in.
pub proof fn law_own_provider_comes_last(v: Seq<(Seq<char>, Seq<char>, Seq<char>)>)
    ensures
        ({
            let w = settings::with_custom(v);
            &&& w.len() == v.len() + 1
            &&& w.take(v.len() as int) == v
            &&& w[v.len() as int].0 == "custom"@
        }),
{
    reveal_strlit("custom");
    assert(settings::with_custom(v).take(v.len() as int) =~= v);
}

/// The wizard and the panel start with nothing set but what is so by default: the chat
/// protocol, no session header, no retries, and the proxy of the environment.
pub proof fn law_settings_start_out(v: Seq<(Seq<char>, Seq<char>, Seq<char>)>)
    ensures
        ({
            let w = config_ui::start_of(v);
            &&& w.step == config_ui::Step::Provider && w.providers == v && w.cursor == 0
            &&& w.provider.len() == 0 && w.model.len() == 0 && w.api_key.len() == 0
            &&& w.base_url.len() == 0 && w.models.len() == 0 && !w.typing
            &&& w.max_turns is None && w.context_window is None
            &&& w.protocol == ProtocolKind::Chat && !w.session_header && !w.retry.enabled
            &&& w.proxy == (ProxyView { mode: ProxyMode::Auto, url: None })
        }),
        ({
            let p = quick_cfg::panel_start(v);
            &&& p.step == quick_cfg::QcStep::Menu && p.providers == v && p.menu_cursor == 0
            &&& p.provider.len() == 0 && p.model.len() == 0 && p.api_key.len() == 0
            &&& p.base_url.len() == 0 && p.models.len() == 0 && !p.typing
            &&& p.max_turns is None && p.context_window is None
            &&& p.protocol == ProtocolKind::Chat && !p.session_header && !p.retry.enabled
            &&& p.proxy == (ProxyView { mode: ProxyMode::Auto, url: None })
        }),
{
}

/// White space around an endpoint does not matter; it is one where it begins with
/// `http://` or `https://`, and only there. Nothing typed is none.
pub proof fn law_endpoints_begin_with_a_scheme(a: Seq<char>, t: Seq<char>, b: Seq<char>)
    requires
        text_laws::blank(a),
        text_laws::tight(t),
        text_laws::blank(b),
    ensures
        settings::is_endpoint(a + t + b) == ("http://"@.is_prefix_of(t) || "https://"@.is_prefix_of(
            t,
        )),
        !settings::is_endpoint(a),
{
    reveal_strlit("http://");
    reveal_strlit("https://");
    text_laws::law_trimming_takes_white_space(a, t, b);
    let e = Seq::<char>::empty();
    text_laws::law_trimming_takes_white_space(a, e, e);
    assert(a + e + e =~= a);
}

/// Retries that are switched on are as many as were asked for, up to eight; those that
/// are switched off are none.
pub proof fn law_retries_are_limited(n: usize)
    ensures
        settings::retry_on(n).enabled,
        n <= 8 ==> settings::retry_on(n).max_retries == n,
        n >= 8 ==> settings::retry_on(n).max_retries == 8,
        !settings::retry_off().enabled,
        settings::retry_off().max_retries == 0,
{
}

} // verus!
