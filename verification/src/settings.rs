//! The settings that the panels edit: model endpoint, protocol, retries, proxy.
use crate::scan;
use crate::text;
use vstd::prelude::*;

verus! {

/// The most retries that one call may take.
pub const MAX_RETRIES: usize = 8;

/// The protocol that an endpoint speaks.
#[derive(Clone, Copy, Debug, PartialEq, Eq, Structural)]
pub enum ProtocolKind {
    Chat,
    Response,
}

/// The name of a protocol.
pub open spec fn protocol_name(p: ProtocolKind) -> Seq<char> {
    match p {
        ProtocolKind::Chat => "chat"@,
        ProtocolKind::Response => "response"@,
    }
}

/// The place of a protocol in the list of them.
pub open spec fn protocol_index(p: ProtocolKind) -> usize {
    match p {
        ProtocolKind::Chat => 0,
        ProtocolKind::Response => 1,
    }
}

/// The protocol at a place of the list.
pub open spec fn protocol_at(i: usize) -> ProtocolKind {
    if i == 0 {
        ProtocolKind::Chat
    } else {
        ProtocolKind::Response
    }
}

impl ProtocolKind {
    /// The name of the protocol.
    pub fn as_str(self) -> (r: &'static str)
        ensures
            r@ == protocol_name(self),
    {
        match self {
            ProtocolKind::Chat => "chat",
            ProtocolKind::Response => "response",
        }
    }

    /// The place of the protocol in the list of them.
    pub fn index(self) -> (r: usize)
        ensures
            r == protocol_index(self),
    {
        match self {
            ProtocolKind::Chat => 0,
            ProtocolKind::Response => 1,
        }
    }

    /// The protocol at a place of the list.
    pub fn at(i: usize) -> (r: ProtocolKind)
        ensures
            r == protocol_at(i),
    {
        if i == 0 {
            ProtocolKind::Chat
        } else {
            ProtocolKind::Response
        }
    }
}

/// How often a model call that fails is tried again.
#[derive(Clone, Copy, Debug, PartialEq, Eq, Structural)]
pub struct RetryConfig {
    pub enabled: bool,
    pub max_retries: usize,
}

/// No retries.
pub open spec fn retry_off() -> RetryConfig {
    RetryConfig { enabled: false, max_retries: 0 }
}

/// `n` retries, but no more than [`MAX_RETRIES`].
pub open spec fn retry_on(n: usize) -> RetryConfig {
    RetryConfig {
        enabled: true,
        max_retries: if n <= MAX_RETRIES {
            n
        } else {
            MAX_RETRIES
        },
    }
}

/// The place of a retry setting in the list: off, 3, 5, 8, another number.
pub open spec fn retry_index(r: RetryConfig) -> usize {
    if !r.enabled {
        0
    } else if r.max_retries == 3 {
        1
    } else if r.max_retries == 5 {
        2
    } else if r.max_retries == 8 {
        3
    } else {
        4
    }
}

/// The retry setting at a place of the list; the last place has none of its own.
pub open spec fn retry_at(i: usize) -> Option<RetryConfig> {
    if i == 0 {
        Some(retry_off())
    } else if i == 1 {
        Some(retry_on(3))
    } else if i == 2 {
        Some(retry_on(5))
    } else if i == 3 {
        Some(retry_on(8))
    } else {
        None
    }
}

impl RetryConfig {
    /// No retries.
    pub fn disabled() -> (r: RetryConfig)
        ensures
            r == retry_off(),
    {
        RetryConfig { enabled: false, max_retries: 0 }
    }

    /// `n` retries, but no more than [`MAX_RETRIES`].
    pub fn enabled_with(n: usize) -> (r: RetryConfig)
        ensures
            r == retry_on(n),
    {
        let max_retries: usize = if n <= MAX_RETRIES {
            n
        } else {
            MAX_RETRIES
        };
        RetryConfig { enabled: true, max_retries }
    }

    /// The place of the setting in the list.
    pub fn index(self) -> (r: usize)
        ensures
            r == retry_index(self),
    {
        if !self.enabled {
            0
        } else if self.max_retries == 3 {
            1
        } else if self.max_retries == 5 {
            2
        } else if self.max_retries == 8 {
            3
        } else {
            4
        }
    }
}

/// Where requests go through.
#[derive(Clone, Copy, Debug, PartialEq, Eq, Structural)]
pub enum ProxyMode {
    /// As the environment says.
    Auto,
    /// No proxy.
    Off,
    /// The given address.
    Manual,
}

/// The place of a mode in the list of them.
pub open spec fn mode_index(m: ProxyMode) -> usize {
    match m {
        ProxyMode::Auto => 0,
        ProxyMode::Off => 1,
        ProxyMode::Manual => 2,
    }
}

impl ProxyMode {
    /// The place of the mode in the list of them.
    pub fn index(self) -> (r: usize)
        ensures
            r == mode_index(self),
    {
        match self {
            ProxyMode::Auto => 0,
            ProxyMode::Off => 1,
            ProxyMode::Manual => 2,
        }
    }
}

/// The text of an optional string.
pub open spec fn opt_text(o: Option<String>) -> Option<Seq<char>> {
    match o {
        Some(s) => Some(s@),
        None => None,
    }
}

/// A copy of an optional string.
pub fn copy_opt(o: &Option<String>) -> (r: Option<String>)
    ensures
        opt_text(r) == opt_text(*o),
{
    match o {
        Some(s) => Some(s.clone()),
        None => None,
    }
}

/// The text, or the empty one.
pub open spec fn text_or_empty(o: Option<Seq<char>>) -> Seq<char> {
    match o {
        Some(s) => s,
        None => Seq::empty(),
    }
}

/// The text, or an empty one.
pub fn or_empty(o: &Option<String>) -> (r: String)
    ensures
        r@ == text_or_empty(opt_text(*o)),
{
    match o {
        Some(s) => s.clone(),
        None => String::new(),
    }
}

/// The text, unless it is empty.
pub open spec fn filled(o: Option<Seq<char>>) -> Option<Seq<char>> {
    match o {
        Some(s) => if s.len() > 0 {
            Some(s)
        } else {
            None
        },
        None => None,
    }
}

/// A copy of the text, unless it is empty.
pub fn keep_filled(o: &Option<String>) -> (r: Option<String>)
    ensures
        opt_text(r) == filled(opt_text(*o)),
{
    match o {
        Some(s) => if is_blank(s.as_str()) {
            None
        } else {
            Some(s.clone())
        },
        None => None,
    }
}

/// Whether a text has no characters.
pub fn is_blank(s: &str) -> (r: bool)
    ensures
        r == (s@.len() == 0),
{
    text::count_chars(s) == 0
}

/// The text as an option: none where it is empty.
pub open spec fn some_filled(s: Seq<char>) -> Option<Seq<char>> {
    if s.len() == 0 {
        None
    } else {
        Some(s)
    }
}

/// The text, unless it is empty.
pub fn opt_filled(s: &String) -> (r: Option<String>)
    ensures
        opt_text(r) == some_filled(s@),
{
    if is_blank(s.as_str()) {
        None
    } else {
        Some(s.clone())
    }
}

/// The network proxy: a mode, and the address that a manual one goes to.
#[derive(Debug)]
pub struct ProxyConfig {
    pub mode: ProxyMode,
    pub url: Option<String>,
}

/// What a proxy setting holds.
#[verifier::ext_equal]
pub struct ProxyView {
    pub mode: ProxyMode,
    pub url: Option<Seq<char>>,
}

impl View for ProxyConfig {
    type V = ProxyView;

    open spec fn view(&self) -> ProxyView {
        ProxyView { mode: self.mode, url: opt_text(self.url) }
    }
}

/// As the environment says.
pub open spec fn proxy_auto() -> ProxyView {
    ProxyView { mode: ProxyMode::Auto, url: None }
}

impl ProxyConfig {
    /// As the environment says.
    pub fn auto() -> (r: ProxyConfig)
        ensures
            r@ == proxy_auto(),
    {
        ProxyConfig { mode: ProxyMode::Auto, url: None }
    }

    /// A copy.
    pub fn copy(&self) -> (r: ProxyConfig)
        ensures
            r@ == self@,
    {
        ProxyConfig { mode: self.mode, url: copy_opt(&self.url) }
    }
}

/// The proxy that requests take.
#[derive(Debug, PartialEq, Eq)]
pub enum EffectiveProxy {
    Direct,
    Via(String),
}

/// What an effective proxy holds.
pub enum EffectiveView {
    Direct,
    Via(Seq<char>),
}

impl View for EffectiveProxy {
    type V = EffectiveView;

    open spec fn view(&self) -> EffectiveView {
        match self {
            EffectiveProxy::Direct => EffectiveView::Direct,
            EffectiveProxy::Via(s) => EffectiveView::Via(s@),
        }
    }
}

/// A connection to a model, ready to be used.
#[derive(Debug)]
pub struct Resolved {
    pub provider_name: String,
    pub model: String,
    pub base_url: String,
    pub api_key: Option<String>,
    pub context_window: Option<usize>,
    pub protocol: ProtocolKind,
    pub session_header_enabled: bool,
    pub retry: RetryConfig,
    pub proxy: EffectiveProxy,
}

/// What a connection holds.
#[verifier::ext_equal]
pub struct ResolvedView {
    pub provider_name: Seq<char>,
    pub model: Seq<char>,
    pub base_url: Seq<char>,
    pub api_key: Option<Seq<char>>,
    pub context_window: Option<usize>,
    pub protocol: ProtocolKind,
    pub session_header_enabled: bool,
    pub retry: RetryConfig,
    pub proxy: EffectiveView,
}

impl View for Resolved {
    type V = ResolvedView;

    open spec fn view(&self) -> ResolvedView {
        ResolvedView {
            provider_name: self.provider_name@,
            model: self.model@,
            base_url: self.base_url@,
            api_key: opt_text(self.api_key),
            context_window: self.context_window,
            protocol: self.protocol,
            session_header_enabled: self.session_header_enabled,
            retry: self.retry,
            proxy: self.proxy@,
        }
    }
}

/// What is known of a provider: its endpoint, model, key, and where the key is
/// found in the environment.
#[derive(Debug)]
pub struct ProviderDef {
    pub base_url: Option<String>,
    pub model: Option<String>,
    pub api_key_env: Option<String>,
    pub api_key: Option<String>,
    pub context_window: Option<usize>,
    pub protocol: Option<ProtocolKind>,
    pub session_header: bool,
}

/// What a provider entry holds.
#[verifier::ext_equal]
pub struct DefView {
    pub base_url: Option<Seq<char>>,
    pub model: Option<Seq<char>>,
    pub api_key_env: Option<Seq<char>>,
    pub api_key: Option<Seq<char>>,
    pub context_window: Option<usize>,
    pub protocol: Option<ProtocolKind>,
    pub session_header: bool,
}

impl View for ProviderDef {
    type V = DefView;

    open spec fn view(&self) -> DefView {
        DefView {
            base_url: opt_text(self.base_url),
            model: opt_text(self.model),
            api_key_env: opt_text(self.api_key_env),
            api_key: opt_text(self.api_key),
            context_window: self.context_window,
            protocol: self.protocol,
            session_header: self.session_header,
        }
    }
}

/// The entry that says nothing.
pub open spec fn def_none() -> DefView {
    DefView {
        base_url: None,
        model: None,
        api_key_env: None,
        api_key: None,
        context_window: None,
        protocol: None,
        session_header: false,
    }
}

impl ProviderDef {
    /// The entry that says nothing.
    pub fn empty() -> (r: ProviderDef)
        ensures
            r@ == def_none(),
    {
        ProviderDef {
            base_url: None,
            model: None,
            api_key_env: None,
            api_key: None,
            context_window: None,
            protocol: None,
            session_header: false,
        }
    }

    /// A copy.
    pub fn copy(&self) -> (r: ProviderDef)
        ensures
            r@ == self@,
    {
        ProviderDef {
            base_url: copy_opt(&self.base_url),
            model: copy_opt(&self.model),
            api_key_env: copy_opt(&self.api_key_env),
            api_key: copy_opt(&self.api_key),
            context_window: self.context_window,
            protocol: self.protocol,
            session_header: self.session_header,
        }
    }
}

/// The named provider entries of a list.
#[verifier::opaque]
pub open spec fn def_views(v: Seq<(String, ProviderDef)>) -> Seq<(Seq<char>, DefView)> {
    v.map_values(|p: (String, ProviderDef)| (p.0@, p.1@))
}

/// The entry of the named provider; the empty one where there is none.
pub open spec fn def_of(v: Seq<(Seq<char>, DefView)>, name: Seq<char>) -> DefView
    decreases v.len(),
{
    if v.len() == 0 {
        def_none()
    } else if v[0].0 == name {
        v[0].1
    } else {
        def_of(v.skip(1), name)
    }
}

/// The entry of the named provider.
pub fn find_def(v: &Vec<(String, ProviderDef)>, name: &str) -> (r: ProviderDef)
    ensures
        r@ == def_of(def_views(v@), name@),
{
    proof {
        reveal(def_views);
    }
    let ghost dv = def_views(v@);
    let mut i: usize = 0;
    proof {
        assert(dv.skip(0) =~= dv);
    }
    while i < v.len()
        invariant
            dv == def_views(v@),
            i <= v.len(),
            def_of(dv.skip(i as int), name@) == def_of(dv, name@),
        decreases v.len() - i,
    {
        proof {
            reveal(def_views);
        }
        proof {
            assert(dv.skip(i as int)[0] == dv[i as int]);
            assert(dv.skip(i as int).skip(1) =~= dv.skip(i + 1));
        }
        if text::same(v[i].0.as_str(), name) {
            return v[i].1.copy();
        }
        i += 1;
    }
    ProviderDef::empty()
}

/// A copy of the entries.
pub fn copy_defs(v: &Vec<(String, ProviderDef)>) -> (r: Vec<(String, ProviderDef)>)
    ensures
        def_views(r@) == def_views(v@),
{
    proof {
        reveal(def_views);
    }
    let mut r: Vec<(String, ProviderDef)> = Vec::new();
    let mut i: usize = 0;
    while i < v.len()
        invariant
            i <= v.len(),
            def_views(r@) == def_views(v@).take(i as int),
        decreases v.len() - i,
    {
        proof {
            reveal(def_views);
        }
        let ghost before = r@;
        r.push((v[i].0.clone(), v[i].1.copy()));
        proof {
            assert(def_views(r@) =~= def_views(before).push(def_views(v@)[i as int]));
            assert(def_views(v@).take(i + 1) =~= def_views(v@).take(i as int).push(
                def_views(v@)[i as int],
            ));
        }
        i += 1;
    }
    proof {
        assert(def_views(v@).take(i as int) =~= def_views(v@));
    }
    r
}

/// The provider, model and endpoint that a configuration comes down to.
#[derive(Debug)]
pub struct Endpoint {
    pub provider_name: String,
    pub model: String,
    pub base_url: String,
}

/// A configuration as it is on disk, with what it comes down to and the providers
/// that are known, built-in ones among them.
#[derive(Debug)]
pub struct Config {
    pub provider: Option<String>,
    pub api_key: Option<String>,
    pub max_turns: Option<usize>,
    pub protocol: Option<ProtocolKind>,
    pub retry: RetryConfig,
    pub proxy: ProxyConfig,
    /// What the configuration resolves to, where it does.
    pub resolved: Option<Endpoint>,
    /// All known providers by name.
    pub providers: Vec<(String, ProviderDef)>,
}

/// What an endpoint holds.
#[verifier::ext_equal]
pub struct EndpointView {
    pub provider_name: Seq<char>,
    pub model: Seq<char>,
    pub base_url: Seq<char>,
}

/// What a configuration holds.
#[verifier::ext_equal]
pub struct ConfigView {
    pub provider: Option<Seq<char>>,
    pub api_key: Option<Seq<char>>,
    pub max_turns: Option<usize>,
    pub protocol: Option<ProtocolKind>,
    pub retry: RetryConfig,
    pub proxy: ProxyView,
    pub resolved: Option<EndpointView>,
    pub providers: Seq<(Seq<char>, DefView)>,
}

impl View for Endpoint {
    type V = EndpointView;

    open spec fn view(&self) -> EndpointView {
        EndpointView {
            provider_name: self.provider_name@,
            model: self.model@,
            base_url: self.base_url@,
        }
    }
}

impl View for Config {
    type V = ConfigView;

    open spec fn view(&self) -> ConfigView {
        ConfigView {
            provider: opt_text(self.provider),
            api_key: opt_text(self.api_key),
            max_turns: self.max_turns,
            protocol: self.protocol,
            retry: self.retry,
            proxy: self.proxy@,
            resolved: match self.resolved {
                Some(e) => Some(e@),
                None => None,
            },
            providers: def_views(self.providers@),
        }
    }
}

/// What the typed proxy address turned out to be.
#[derive(Debug)]
pub enum ProxyCheck {
    /// No proxy address.
    Malformed,
    /// An address that is refused, with the reason.
    Refused(String),
    /// A good address, in its normal form.
    Normal(String),
}

/// What a check holds.
pub enum CheckView {
    Malformed,
    Refused(Seq<char>),
    Normal(Seq<char>),
}

impl View for ProxyCheck {
    type V = CheckView;

    open spec fn view(&self) -> CheckView {
        match self {
            ProxyCheck::Malformed => CheckView::Malformed,
            ProxyCheck::Refused(s) => CheckView::Refused(s@),
            ProxyCheck::Normal(s) => CheckView::Normal(s@),
        }
    }
}

/// What the panels need to know of the machine they run on, as it is when a key
/// is handled.
#[derive(Debug)]
pub struct Host {
    /// The environment variables.
    pub vars: Vec<(String, String)>,
    /// The proxy that the environment names.
    pub env_proxy: Option<String>,
    /// The same, fit to be shown.
    pub env_proxy_shown: Option<String>,
    /// The address of the proxy setting, fit to be shown.
    pub proxy_shown: Option<String>,
    /// What the address in the input line is.
    pub proxy_check: ProxyCheck,
    /// A value for the session header of a trial request.
    pub probe: String,
    /// The limit of turns where none is set.
    pub default_turns: usize,
}

/// What is known of the machine.
#[verifier::ext_equal]
pub struct HostView {
    pub vars: Seq<(Seq<char>, Seq<char>)>,
    pub env_proxy: Option<Seq<char>>,
    pub env_proxy_shown: Option<Seq<char>>,
    pub proxy_shown: Option<Seq<char>>,
    pub proxy_check: CheckView,
    pub probe: Seq<char>,
    pub default_turns: usize,
}

/// The variables of a list.
#[verifier::opaque]
pub open spec fn var_views(v: Seq<(String, String)>) -> Seq<(Seq<char>, Seq<char>)> {
    v.map_values(|p: (String, String)| (p.0@, p.1@))
}

impl View for Host {
    type V = HostView;

    open spec fn view(&self) -> HostView {
        HostView {
            vars: var_views(self.vars@),
            env_proxy: opt_text(self.env_proxy),
            env_proxy_shown: opt_text(self.env_proxy_shown),
            proxy_shown: opt_text(self.proxy_shown),
            proxy_check: self.proxy_check@,
            probe: self.probe@,
            default_turns: self.default_turns,
        }
    }
}

/// The value of a variable.
pub open spec fn var_of(v: Seq<(Seq<char>, Seq<char>)>, name: Seq<char>) -> Option<Seq<char>>
    decreases v.len(),
{
    if v.len() == 0 {
        None
    } else if v[0].0 == name {
        Some(v[0].1)
    } else {
        var_of(v.skip(1), name)
    }
}

/// The value of a variable.
pub fn find_var(v: &Vec<(String, String)>, name: &str) -> (r: Option<String>)
    ensures
        opt_text(r) == var_of(var_views(v@), name@),
{
    proof {
        reveal(var_views);
    }
    let ghost vv = var_views(v@);
    let mut i: usize = 0;
    proof {
        assert(vv.skip(0) =~= vv);
    }
    while i < v.len()
        invariant
            vv == var_views(v@),
            i <= v.len(),
            var_of(vv.skip(i as int), name@) == var_of(vv, name@),
        decreases v.len() - i,
    {
        proof {
            reveal(var_views);
        }
        proof {
            assert(vv.skip(i as int)[0] == vv[i as int]);
            assert(vv.skip(i as int).skip(1) =~= vv.skip(i + 1));
        }
        if text::same(v[i].0.as_str(), name) {
            return Some(v[i].1.clone());
        }
        i += 1;
    }
    None
}

// ------------------------------------------------------------------- choices

/// A proxy setting from its place in the list: a manual one keeps the address.
pub open spec fn proxy_at(i: usize, url: Option<Seq<char>>) -> ProxyView {
    if i == 1 {
        ProxyView { mode: ProxyMode::Off, url: None }
    } else if i == 2 {
        ProxyView { mode: ProxyMode::Manual, url }
    } else {
        proxy_auto()
    }
}

/// A proxy setting from its place in the list.
pub fn proxy_from_cursor(cursor: usize, url: Option<String>) -> (r: ProxyConfig)
    ensures
        r@ == proxy_at(cursor, opt_text(url)),
{
    if cursor == 1 {
        ProxyConfig { mode: ProxyMode::Off, url: None }
    } else if cursor == 2 {
        ProxyConfig { mode: ProxyMode::Manual, url }
    } else {
        ProxyConfig { mode: ProxyMode::Auto, url: None }
    }
}

/// A retry setting from its place in the list.
pub fn retry_from_cursor(cursor: usize) -> (r: Option<RetryConfig>)
    ensures
        r == retry_at(cursor),
{
    if cursor == 0 {
        Some(RetryConfig::disabled())
    } else if cursor == 1 {
        Some(RetryConfig::enabled_with(3))
    } else if cursor == 2 {
        Some(RetryConfig::enabled_with(5))
    } else if cursor == 3 {
        Some(RetryConfig::enabled_with(8))
    } else {
        None
    }
}

/// The proxy that requests take: as the environment says where the setting says
/// so or names no address.
pub open spec fn effective(p: ProxyView, env: Option<Seq<char>>) -> EffectiveView {
    let from_env = match env {
        Some(e) => EffectiveView::Via(e),
        None => EffectiveView::Direct,
    };
    match p.mode {
        ProxyMode::Off => EffectiveView::Direct,
        ProxyMode::Auto => from_env,
        ProxyMode::Manual => match p.url {
            Some(u) => if scan::trimmed(u).len() > 0 {
                EffectiveView::Via(scan::trimmed(u))
            } else {
                from_env
            },
            None => from_env,
        },
    }
}

fn proxy_of_env(env: &Option<String>) -> (r: EffectiveProxy)
    ensures
        r@ == (match opt_text(*env) {
            Some(e) => EffectiveView::Via(e),
            None => EffectiveView::Direct,
        }),
{
    match env {
        Some(e) => EffectiveProxy::Via(e.clone()),
        None => EffectiveProxy::Direct,
    }
}

/// The proxy that requests take.
pub fn effective_proxy(p: &ProxyConfig, env: &Option<String>) -> (r: EffectiveProxy)
    ensures
        r@ == effective(p@, opt_text(*env)),
{
    match p.mode {
        ProxyMode::Off => EffectiveProxy::Direct,
        ProxyMode::Auto => proxy_of_env(env),
        ProxyMode::Manual => match &p.url {
            Some(u) => {
                let t = scan::trim(u.as_str());
                if is_blank(t.as_str()) {
                    proxy_of_env(env)
                } else {
                    EffectiveProxy::Via(t)
                }
            },
            None => proxy_of_env(env),
        },
    }
}

/// The providers to choose from: name, endpoint and default model.
#[verifier::opaque]
pub open spec fn choice_views(v: Seq<(String, String, String)>) -> Seq<
    (Seq<char>, Seq<char>, Seq<char>),
> {
    v.map_values(|p: (String, String, String)| (p.0@, p.1@, p.2@))
}

pub const CUSTOM: &'static str = "custom";

pub const CUSTOM_ENDPOINT: &'static str = "(手动输入端点)";

/// The given choices, and behind them a provider that is to be typed in.
pub open spec fn with_custom(v: Seq<(Seq<char>, Seq<char>, Seq<char>)>) -> Seq<
    (Seq<char>, Seq<char>, Seq<char>),
> {
    v.push((CUSTOM@, CUSTOM_ENDPOINT@, Seq::<char>::empty()))
}

/// The known providers, and one to be typed in behind them.
pub fn provider_list(known: Vec<(String, String, String)>) -> (r: Vec<(String, String, String)>)
    ensures
        choice_views(r@) == with_custom(choice_views(known@)),
        r@.len() > 0,
{
    proof {
        reveal(choice_views);
    }
    let mut r = known;
    let last = (text::copy(CUSTOM), text::copy(CUSTOM_ENDPOINT), String::new());
    r.push(last);
    proof {
        assert(choice_views(r@) =~= choice_views(known@).push((last.0@, last.1@, last.2@)));
    }
    r
}

/// The first place at or behind `i` that holds the named provider, or the end.
pub open spec fn choice_from(
    v: Seq<(Seq<char>, Seq<char>, Seq<char>)>,
    name: Seq<char>,
    i: int,
) -> int
    decreases v.len() - i,
{
    if 0 <= i < v.len() && v[i].0 != name {
        choice_from(v, name, i + 1)
    } else {
        i
    }
}

/// The place of the named provider among the choices.
pub fn find_choice(v: &Vec<(String, String, String)>, name: &str) -> (r: Option<usize>)
    ensures
        match r {
            Some(i) => i < v.len() && i == choice_from(choice_views(v@), name@, 0),
            None => choice_from(choice_views(v@), name@, 0) == v.len(),
        },
        choice_views(v@).len() == v.len(),
{
    proof {
        reveal(choice_views);
    }
    let ghost cv = choice_views(v@);
    let mut i: usize = 0;
    while i < v.len()
        invariant
            cv == choice_views(v@),
            i <= v.len(),
            choice_from(cv, name@, i as int) == choice_from(cv, name@, 0),
        decreases v.len() - i,
    {
        proof {
            reveal(choice_views);
        }
        proof {
            assert(cv[i as int].0 == v@[i as int].0@);
        }
        if text::same(v[i].0.as_str(), name) {
            return Some(i);
        }
        i += 1;
    }
    None
}

/// The first place at or behind `i` that holds the text, or the end.
pub open spec fn text_from(v: Seq<Seq<char>>, name: Seq<char>, i: int) -> int
    decreases v.len() - i,
{
    if 0 <= i < v.len() && v[i] != name {
        text_from(v, name, i + 1)
    } else {
        i
    }
}

/// What searching for a text finds.
pub proof fn lemma_text_from(v: Seq<Seq<char>>, name: Seq<char>, i: int)
    requires
        0 <= i <= v.len(),
    ensures
        i <= text_from(v, name, i) <= v.len(),
        text_from(v, name, i) < v.len() ==> v[text_from(v, name, i)] == name,
        forall|k: int| i <= k < text_from(v, name, i) ==> v[k] != name,
    decreases v.len() - i,
{
    if i < v.len() && v[i] != name {
        lemma_text_from(v, name, i + 1);
    }
}

/// The place of a text in a list.
pub fn find_text(v: &Vec<String>, name: &str) -> (r: Option<usize>)
    ensures
        match r {
            Some(i) => i < v.len() && i == text_from(scan::texts(v@), name@, 0),
            None => text_from(scan::texts(v@), name@, 0) == v.len(),
        },
{
    let ghost tv = scan::texts(v@);
    let mut i: usize = 0;
    while i < v.len()
        invariant
            tv == scan::texts(v@),
            i <= v.len(),
            text_from(tv, name@, i as int) == text_from(tv, name@, 0),
        decreases v.len() - i,
    {
        proof {
            assert(tv[i as int] == v@[i as int]@);
        }
        if text::same(v[i].as_str(), name) {
            return Some(i);
        }
        i += 1;
    }
    None
}

// -------------------------------------------------------------------- reading

pub const BAD_WINDOW: &'static str = "窗口要填正整数 tokens(留空 = 自动识别),请重新输入:";

pub const BAD_TURNS: &'static str = "轮数上限要填整数(0 = 不限,留空 = 默认),请重新输入:";

pub const BAD_RETRY: &'static str = "重试次数要填 0..=8 的整数(空 = 关闭)，请重新输入:";

/// The number that a typed text stands for.
pub open spec fn typed_number(t: Seq<char>) -> Option<nat> {
    text::parse_number(scan::trimmed(t), usize::MAX as nat)
}

fn read_typed(t: &str) -> (r: Option<usize>)
    ensures
        match r {
            Some(n) => text::parse_number(t@, usize::MAX as nat) == Some(n as nat),
            None => text::parse_number(t@, usize::MAX as nat) is None,
        },
{
    match text::read_number(t, usize::MAX as u64) {
        Some(n) => Some(n as usize),
        None => None,
    }
}

/// The context window that a typed text stands for: nothing is automatic, and
/// anything but a positive number is refused.
pub open spec fn window_input(t: Seq<char>) -> Option<Option<usize>> {
    if scan::trimmed(t).len() == 0 {
        Some(None)
    } else {
        match typed_number(t) {
            Some(n) => if n > 0 {
                Some(Some(n as usize))
            } else {
                None
            },
            None => None,
        }
    }
}

/// Reads a context window.
pub fn parse_context_window_input(t: &str) -> (r: Result<Option<usize>, &'static str>)
    ensures
        match r {
            Ok(w) => window_input(t@) == Some(w),
            Err(m) => window_input(t@) is None && m@ == BAD_WINDOW@,
        },
{
    let t2 = scan::trim(t);
    if is_blank(t2.as_str()) {
        return Ok(None);
    }
    match read_typed(t2.as_str()) {
        Some(n) => if n > 0 {
            Ok(Some(n))
        } else {
            Err(BAD_WINDOW)
        },
        None => Err(BAD_WINDOW),
    }
}

/// The limit of turns that a typed text stands for: nothing is the default, and
/// anything but a number is refused.
pub open spec fn turns_input(t: Seq<char>) -> Option<Option<usize>> {
    if scan::trimmed(t).len() == 0 {
        Some(None)
    } else {
        match typed_number(t) {
            Some(n) => Some(Some(n as usize)),
            None => None,
        }
    }
}

/// Reads a limit of turns.
pub fn parse_max_turns_input(t: &str) -> (r: Result<Option<usize>, &'static str>)
    ensures
        match r {
            Ok(w) => turns_input(t@) == Some(w),
            Err(m) => turns_input(t@) is None && m@ == BAD_TURNS@,
        },
{
    let t2 = scan::trim(t);
    if is_blank(t2.as_str()) {
        return Ok(None);
    }
    match read_typed(t2.as_str()) {
        Some(n) => Ok(Some(n)),
        None => Err(BAD_TURNS),
    }
}

/// The retry setting that a typed text stands for: nothing and 0 are none, and
/// anything but a number is refused.
pub open spec fn retry_input(t: Seq<char>) -> Option<RetryConfig> {
    if scan::trimmed(t).len() == 0 {
        Some(retry_off())
    } else {
        match typed_number(t) {
            Some(n) => if n == 0 {
                Some(retry_off())
            } else {
                Some(retry_on(n as usize))
            },
            None => None,
        }
    }
}

/// Reads a retry setting.
pub fn parse_retry_input(t: &str) -> (r: Result<RetryConfig, &'static str>)
    ensures
        match r {
            Ok(w) => retry_input(t@) == Some(w),
            Err(m) => retry_input(t@) is None && m@ == BAD_RETRY@,
        },
{
    let t2 = scan::trim(t);
    if is_blank(t2.as_str()) {
        return Ok(RetryConfig::disabled());
    }
    match read_typed(t2.as_str()) {
        Some(n) => if n == 0 {
            Ok(RetryConfig::disabled())
        } else {
            Ok(RetryConfig::enabled_with(n))
        },
        None => Err(BAD_RETRY),
    }
}

/// Whether a text starts with `http://` or `https://`.
pub open spec fn has_scheme(t: Seq<char>) -> bool {
    t.len() > 0 && ("http://"@.is_prefix_of(t) || "https://"@.is_prefix_of(t))
}

/// Whether a text starts with `http://` or `https://`.
pub fn check_scheme(t: &str) -> (r: bool)
    ensures
        r == has_scheme(t@),
{
    !is_blank(t) && (scan::starts_with(t, "http://") || scan::starts_with(t, "https://"))
}

/// Whether a text is an endpoint, white space around it aside.
pub open spec fn is_endpoint(v: Seq<char>) -> bool {
    has_scheme(scan::trimmed(v))
}

/// Whether a text is an endpoint.
pub fn valid_base_url(v: &str) -> (r: bool)
    ensures
        r == is_endpoint(v@),
{
    let t = scan::trim(v);
    check_scheme(t.as_str())
}

// -------------------------------------------------------------------- showing

/// How a limit of turns is shown.
pub open spec fn turns_shown(t: Option<usize>, default_turns: usize) -> Seq<char> {
    match t {
        None => "默认("@ + text::decimal(default_turns as nat) + " 轮)"@,
        Some(n) => if n == 0 {
            "不限"@
        } else {
            text::decimal(n as nat) + " 轮"@
        },
    }
}

/// How a limit of turns is shown.
pub fn max_turns_text(t: Option<usize>, default_turns: usize) -> (r: String)
    ensures
        r@ == turns_shown(t, default_turns),
{
    match t {
        None => text::cat3("默认(", text::dec(default_turns).as_str(), " 轮)"),
        Some(n) => if n == 0 {
            text::copy("不限")
        } else {
            text::cat2(text::dec(n).as_str(), " 轮")
        },
    }
}

/// How a retry setting is shown.
pub open spec fn retry_shown(r: RetryConfig) -> Seq<char> {
    if !r.enabled {
        "关闭"@
    } else {
        "开启(失败后追加 "@ + text::decimal(r.max_retries as nat) + " 次)"@
    }
}

/// How a retry setting is shown.
pub fn retry_text(retry: RetryConfig) -> (r: String)
    ensures
        r@ == retry_shown(retry),
{
    if !retry.enabled {
        text::copy("关闭")
    } else {
        text::cat3("开启(失败后追加 ", text::dec(retry.max_retries).as_str(), " 次)")
    }
}

pub const WINDOW_AUTO: &'static str = "自动(按模型名匹配内置表;认不出就只报绝对量)";

/// How a context window is shown.
pub open spec fn window_shown(w: Option<usize>) -> Seq<char> {
    match w {
        None => WINDOW_AUTO@,
        Some(n) => if n >= 1_000_000 {
            text::decimal(n as nat) + "(约 "@ + text::decimal((n / 1_000_000) as nat) + "M)"@
        } else if n >= 1_000 {
            text::decimal(n as nat) + "(约 "@ + text::decimal((n / 1_000) as nat) + "k)"@
        } else {
            text::decimal(n as nat)
        },
    }
}

/// How a context window is shown.
pub fn context_window_text(w: Option<usize>) -> (r: String)
    ensures
        r@ == window_shown(w),
{
    match w {
        None => text::copy(WINDOW_AUTO),
        Some(n) => {
            let d = text::dec(n);
            if n >= 1_000_000 {
                text::cat4(d.as_str(), "(约 ", text::dec(n / 1_000_000).as_str(), "M)")
            } else if n >= 1_000 {
                text::cat4(d.as_str(), "(约 ", text::dec(n / 1_000).as_str(), "k)")
            } else {
                d
            }
        },
    }
}

/// How a proxy setting is shown.
pub open spec fn proxy_shown(p: ProxyView, h: HostView) -> Seq<char> {
    match p.mode {
        ProxyMode::Off => "直连(忽略环境代理)"@,
        ProxyMode::Manual => "手动 "@ + (match h.proxy_shown {
            Some(u) => u,
            None => "(未填地址)"@,
        }),
        ProxyMode::Auto => match h.env_proxy_shown {
            Some(u) => "跟随环境(当前 "@ + u + ")"@,
            None => "跟随环境(当前直连)"@,
        },
    }
}

/// How a proxy setting is shown.
pub fn proxy_text(p: &ProxyConfig, h: &Host) -> (r: String)
    ensures
        r@ == proxy_shown(p@, h@),
{
    match p.mode {
        ProxyMode::Off => text::copy("直连(忽略环境代理)"),
        ProxyMode::Manual => match &h.proxy_shown {
            Some(u) => text::cat2("手动 ", u.as_str()),
            None => text::cat2("手动 ", "(未填地址)"),
        },
        ProxyMode::Auto => match &h.env_proxy_shown {
            Some(u) => text::cat3("跟随环境(当前 ", u.as_str(), ")"),
            None => text::copy("跟随环境(当前直连)"),
        },
    }
}

/// The first `n` characters of a longer text, with an ellipsis behind them.
pub open spec fn shortened(s: Seq<char>, n: nat) -> Seq<char> {
    if s.len() > n {
        s.take(n as int) + "…"@
    } else {
        s
    }
}

/// The first `n` characters of a longer text, with an ellipsis behind them.
pub fn shorten(s: &str, n: usize) -> (r: String)
    ensures
        r@ == shortened(s@, n as nat),
{
    let v = text::chars_of(s);
    if v.len() > n {
        let t = text::string_of(&v, 0, n);
        proof {
            assert(t@ =~= s@.take(n as int));
        }
        text::cat2(t.as_str(), "…")
    } else {
        text::copy(s)
    }
}

/// How a proxy setting is shown where there is little room.
pub open spec fn proxy_brief(p: ProxyView, h: HostView) -> Seq<char> {
    shortened(
        match p.mode {
            ProxyMode::Off => "直连"@,
            ProxyMode::Manual => "手动:"@ + (match h.proxy_shown {
                Some(u) => u,
                None => "?"@,
            }),
            ProxyMode::Auto => match h.env_proxy_shown {
                Some(u) => "环境:"@ + u,
                None => "环境(直连)"@,
            },
        },
        24,
    )
}

/// How a proxy setting is shown where there is little room.
pub fn proxy_text_short(p: &ProxyConfig, h: &Host) -> (r: String)
    ensures
        r@ == proxy_brief(p@, h@),
{
    let s = match p.mode {
        ProxyMode::Off => text::copy("直连"),
        ProxyMode::Manual => match &h.proxy_shown {
            Some(u) => text::cat2("手动:", u.as_str()),
            None => text::cat2("手动:", "?"),
        },
        ProxyMode::Auto => match &h.env_proxy_shown {
            Some(u) => text::cat2("环境:", u.as_str()),
            None => text::copy("环境(直连)"),
        },
    };
    shorten(s.as_str(), 24)
}

} // verus!
