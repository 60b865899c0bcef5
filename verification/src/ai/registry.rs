//! Which model is asked: the configured integrations, in order of preference, and what the platform
//! can run.
use super::presets::{
    catalogue, default_auto, default_auto_model, fitting_model, largest_fit, law_fallbacks,
    law_largest_fit, lemma_model_found, model_named, offline_model, online_provider, provider_named,
    providers, smallest, smallest_auto, smallest_auto_model, OfflineModelView,
};
use crate::text::{
    clone_opt, group_text, lemma_found_stays, lemma_take_step, opt_view, same, trim, trimmed, views,
};
use vstd::prelude::*;

pub mod laws;

verus! {

broadcast use group_text;

/// A family of models that run without a service.
#[derive(Debug, Clone, Copy, PartialEq, Eq, Structural)]
pub enum Family {
    Qwen3,
    Qwen25,
}

/// Whether a family has a model with an id.
pub open spec fn has_model(family: Family, id: Seq<char>) -> bool {
    match family {
        Family::Qwen3 => model_named(catalogue(), id) is Some,
        Family::Qwen25 => id == "qwen2.5-0.5b"@ || id == "qwen2.5-1.5b"@ || id == "qwen2.5-3b"@
            || id == "qwen2.5-7b"@,
    }
}

impl Family {
    /// Whether the family has a model with an id.
    pub fn knows(self, id: &str) -> (r: bool)
        ensures
            r == has_model(self, id@),
    {
        match self {
            Family::Qwen3 => offline_model(id).is_some(),
            Family::Qwen25 => same(id, "qwen2.5-0.5b") || same(id, "qwen2.5-1.5b") || same(
                id,
                "qwen2.5-3b",
            ) || same(id, "qwen2.5-7b"),
        }
    }
}

// ---------------------------------------------------------------------------------------------
// One connection
// ---------------------------------------------------------------------------------------------

/// How a model is reached: `online` over a chat service, `offline` in this process; any other mode
/// is off.
#[derive(Debug)]
pub struct AiConfig {
    pub mode: String,
    /// online: the id of a hosted service, or `custom`.
    pub provider: Option<String>,
    /// online: the endpoint of a custom service.
    pub endpoint: Option<String>,
    /// online: the model, where it is not the service's default.
    pub model: Option<String>,
    pub api_key: Option<String>,
    /// offline: the id of the model.
    pub offline_model: Option<String>,
}

#[verifier::ext_equal]
pub struct AiConfigView {
    pub mode: Seq<char>,
    pub provider: Option<Seq<char>>,
    pub endpoint: Option<Seq<char>>,
    pub model: Option<Seq<char>>,
    pub api_key: Option<Seq<char>>,
    pub offline_model: Option<Seq<char>>,
}

impl View for AiConfig {
    type V = AiConfigView;

    open spec fn view(&self) -> AiConfigView {
        AiConfigView {
            mode: self.mode@,
            provider: opt_view(self.provider),
            endpoint: opt_view(self.endpoint),
            model: opt_view(self.model),
            api_key: opt_view(self.api_key),
            offline_model: opt_view(self.offline_model),
        }
    }
}

impl Clone for AiConfig {
    fn clone(&self) -> (r: Self)
        ensures
            r == *self,
    {
        AiConfig {
            mode: self.mode.clone(),
            provider: clone_opt(&self.provider),
            endpoint: clone_opt(&self.endpoint),
            model: clone_opt(&self.model),
            api_key: clone_opt(&self.api_key),
            offline_model: clone_opt(&self.offline_model),
        }
    }
}

/// The connection that is off.
pub open spec fn no_connection() -> AiConfigView {
    AiConfigView {
        mode: Seq::empty(),
        provider: None,
        endpoint: None,
        model: None,
        api_key: None,
        offline_model: None,
    }
}

impl Default for AiConfig {
    fn default() -> (r: Self)
        ensures
            r@ == no_connection(),
    {
        let r: AiConfig = AiConfig {
            mode: String::new(),
            provider: None,
            endpoint: None,
            model: None,
            api_key: None,
            offline_model: None,
        };
        assert(r@ =~= no_connection());
        r
    }
}

/// The environment's word on the model: its variables, as far as they are set.
#[derive(Debug, Clone)]
pub struct AiEnv {
    pub endpoint: Option<String>,
    pub model: Option<String>,
    pub api_key: Option<String>,
}

/// A variable's text, trimmed, when it is not blank.
pub open spec fn filled(v: Option<Seq<char>>) -> Option<Seq<char>> {
    match v {
        Some(t) => if trimmed(t).len() > 0 {
            Some(trimmed(t))
        } else {
            None
        },
        None => None,
    }
}

/// A variable's text, trimmed, when it is not blank.
pub fn nonempty(v: &Option<String>) -> (r: Option<String>)
    ensures
        opt_view(r) == filled(opt_view(*v)),
{
    match v {
        Some(t) => {
            let t: String = trim(t.as_str());
            if t.as_str().is_empty() {
                None
            } else {
                Some(t)
            }
        },
        None => None,
    }
}

/// What answers: a chat service, or a model in this process.
#[derive(Debug, Clone, PartialEq, Eq)]
pub enum Backend {
    Chat { endpoint: String, model: String, api_key: Option<String> },
    Embedded { model: String },
}

pub enum BackendView {
    Chat { endpoint: Seq<char>, model: Seq<char>, api_key: Option<Seq<char>> },
    Embedded { model: Seq<char> },
}

impl View for Backend {
    type V = BackendView;

    open spec fn view(&self) -> BackendView {
        match self {
            Backend::Chat { endpoint, model, api_key } => BackendView::Chat {
                endpoint: endpoint@,
                model: model@,
                api_key: opt_view(*api_key),
            },
            Backend::Embedded { model } => BackendView::Embedded { model: model@ },
        }
    }
}

/// Whether a connection is to a custom service.
pub open spec fn is_custom(provider: Option<Seq<char>>) -> bool {
    match provider {
        Some(p) => p == "custom"@,
        None => true,
    }
}

/// The endpoint and the model of an online connection.
pub open spec fn online_target(c: AiConfigView) -> Option<(Seq<char>, Seq<char>)> {
    if is_custom(c.provider) {
        match (c.endpoint, c.model) {
            (Some(e), Some(m)) => Some((e, m)),
            _ => None,
        }
    } else {
        match provider_named(providers(), c.provider->0) {
            Some(p) => Some(
                (
                    p.endpoint,
                    match c.model {
                        Some(m) => m,
                        None => p.default_model,
                    },
                ),
            ),
            None => None,
        }
    }
}

/// Whether a connection names a known model to run in this process.
pub open spec fn names_offline_model(family: Family, c: AiConfigView) -> bool {
    match c.offline_model {
        Some(id) => has_model(family, id),
        None => false,
    }
}

/// What answers over a connection.
pub open spec fn backend_of(family: Family, c: AiConfigView) -> Option<BackendView> {
    if c.mode == "online"@ {
        match online_target(c) {
            Some((endpoint, model)) => Some(
                BackendView::Chat { endpoint, model, api_key: c.api_key },
            ),
            None => None,
        }
    } else if c.mode == "offline"@ && names_offline_model(family, c) {
        Some(BackendView::Embedded { model: c.offline_model->0 })
    } else {
        None
    }
}

/// Whether a connection is filled in.
pub open spec fn is_enabled(family: Family, c: AiConfigView) -> bool {
    (c.mode == "online"@ && online_target(c) is Some) || (c.mode == "offline"@
        && names_offline_model(family, c))
}

/// The connection that the environment asks for.
pub open spec fn asked_for(
    endpoint: Option<Seq<char>>,
    model: Option<Seq<char>>,
    api_key: Option<Seq<char>>,
) -> AiConfigView {
    match (filled(endpoint), filled(model)) {
        (Some(e), Some(m)) => AiConfigView {
            mode: "online"@,
            provider: Some("custom"@),
            endpoint: Some(e),
            model: Some(m),
            api_key: filled(api_key),
            offline_model: None,
        },
        _ => no_connection(),
    }
}

impl AiConfig {
    /// The connection that the environment asks for: a custom service where both endpoint and model
    /// are set, else none.
    pub fn from_env(env: &AiEnv) -> (r: Self)
        ensures
            r@ == asked_for(opt_view(env.endpoint), opt_view(env.model), opt_view(env.api_key)),
    {
        let endpoint: Option<String> = nonempty(&env.endpoint);
        let model: Option<String> = nonempty(&env.model);
        if endpoint.is_some() && model.is_some() {
            AiConfig {
                mode: "online".to_owned(),
                provider: Some("custom".to_owned()),
                endpoint,
                model,
                api_key: nonempty(&env.api_key),
                offline_model: None,
            }
        } else {
            AiConfig::default()
        }
    }

    fn resolve_online(&self) -> (r: Option<(String, String)>)
        ensures
            match r {
                Some((e, m)) => online_target(self@) == Some((e@, m@)),
                None => online_target(self@) is None,
            },
    {
        let custom: bool = match &self.provider {
            Some(p) => same(p.as_str(), "custom"),
            None => true,
        };
        if custom {
            match (&self.endpoint, &self.model) {
                (Some(e), Some(m)) => Some((e.clone(), m.clone())),
                _ => None,
            }
        } else {
            match &self.provider {
                Some(id) => match online_provider(id.as_str()) {
                    Some(p) => {
                        let model: String = match &self.model {
                            Some(m) => m.clone(),
                            None => p.default_model.to_owned(),
                        };
                        Some((p.endpoint.to_owned(), model))
                    },
                    None => None,
                },
                None => None,
            }
        }
    }

    fn knows_offline_model(&self, family: Family) -> (r: bool)
        ensures
            r == names_offline_model(family, self@),
    {
        match &self.offline_model {
            Some(id) => family.knows(id.as_str()),
            None => false,
        }
    }

    /// What answers over this connection, with the models of a family.
    pub fn build_in(&self, family: Family) -> (r: Option<Backend>)
        ensures
            opt_view(r) == backend_of(family, self@),
    {
        proof {
            reveal_strlit("online");
            reveal_strlit("offline");
        }
        if same(self.mode.as_str(), "online") {
            match self.resolve_online() {
                Some((endpoint, model)) => Some(
                    Backend::Chat { endpoint, model, api_key: clone_opt(&self.api_key) },
                ),
                None => None,
            }
        } else if same(self.mode.as_str(), "offline") && self.knows_offline_model(family) {
            match &self.offline_model {
                Some(id) => Some(Backend::Embedded { model: id.clone() }),
                None => None,
            }
        } else {
            None
        }
    }

    /// What answers over this connection.
    pub fn build(&self) -> (r: Option<Backend>)
        ensures
            opt_view(r) == backend_of(Family::Qwen3, self@),
    {
        self.build_in(Family::Qwen3)
    }

    /// Whether this connection is filled in, with the models of a family.
    pub fn enabled_in(&self, family: Family) -> (r: bool)
        ensures
            r == is_enabled(family, self@),
    {
        (same(self.mode.as_str(), "online") && self.resolve_online().is_some()) || (same(
            self.mode.as_str(),
            "offline",
        ) && self.knows_offline_model(family))
    }

    /// Whether this connection is filled in.
    pub fn enabled(&self) -> (r: bool)
        ensures
            r == is_enabled(Family::Qwen3, self@),
    {
        self.enabled_in(Family::Qwen3)
    }
}

/// A connection is filled in exactly when something answers over it.
pub proof fn law_enabled_connections_answer(family: Family, c: AiConfigView)
    ensures
        is_enabled(family, c) <==> backend_of(family, c) is Some,
{
    reveal_strlit("online");
    reveal_strlit("offline");
    assert("online"@.len() != "offline"@.len());
}

// ---------------------------------------------------------------------------------------------
// The platform
// ---------------------------------------------------------------------------------------------

/// What a platform can do.
#[derive(Debug, Clone, Copy, PartialEq, Eq)]
pub struct PlatformCaps {
    /// Whether a model can run in this process.
    pub embedded: bool,
    /// Whether such a model can use a GPU.
    pub gpu: bool,
    /// Whether a model can run in the browser.
    pub webgpu: bool,
    pub vram_mb: Option<u32>,
    pub ram_mb: Option<u32>,
    pub cpu_cores: Option<u32>,
}

impl Default for PlatformCaps {
    fn default() -> (r: Self)
        ensures
            r == (PlatformCaps {
                embedded: false,
                gpu: false,
                webgpu: false,
                vram_mb: None,
                ram_mb: None,
                cpu_cores: None,
            }),
    {
        PlatformCaps {
            embedded: false,
            gpu: false,
            webgpu: false,
            vram_mb: None,
            ram_mb: None,
            cpu_cores: None,
        }
    }
}

/// The first of two numbers that is known.
pub open spec fn either(a: Option<u32>, b: Option<u32>) -> Option<u32> {
    match a {
        Some(n) => Some(n),
        None => b,
    }
}

fn first_of(a: Option<u32>, b: Option<u32>) -> (r: Option<u32>)
    ensures
        r == either(a, b),
{
    match a {
        Some(n) => Some(n),
        None => b,
    }
}

/// What a server and a browser can do together.
pub open spec fn merged(server: PlatformCaps, browser: PlatformCaps) -> PlatformCaps {
    PlatformCaps {
        embedded: server.embedded,
        gpu: server.gpu,
        webgpu: browser.webgpu,
        vram_mb: either(browser.vram_mb, server.vram_mb),
        ram_mb: either(browser.ram_mb, server.ram_mb),
        cpu_cores: either(browser.cpu_cores, server.cpu_cores),
    }
}

impl PlatformCaps {
    /// What a server process can do that has a GPU or not, and a number of processors.
    pub fn server(gpu: bool, cpu_cores: Option<u32>) -> (r: Self)
        ensures
            r == (PlatformCaps {
                embedded: true,
                gpu,
                webgpu: false,
                vram_mb: None,
                ram_mb: None,
                cpu_cores,
            }),
    {
        PlatformCaps { embedded: true, gpu, webgpu: false, vram_mb: None, ram_mb: None, cpu_cores }
    }

    /// What a server and a browser can do together. The browser has the word on WebGPU, memory and
    /// processors; the server keeps its own word on its process and its GPU.
    pub fn merged_with_browser(self, browser: &PlatformCaps) -> (r: Self)
        ensures
            r == merged(self, *browser),
    {
        PlatformCaps {
            embedded: self.embedded,
            gpu: self.gpu,
            webgpu: browser.webgpu,
            vram_mb: first_of(browser.vram_mb, self.vram_mb),
            ram_mb: first_of(browser.ram_mb, self.ram_mb),
            cpu_cores: first_of(browser.cpu_cores, self.cpu_cores),
        }
    }
}

// ---------------------------------------------------------------------------------------------
// The model to run
// ---------------------------------------------------------------------------------------------

/// The fitting model for `vram` megabytes, or the smallest.
pub open spec fn sized(vram: u32, webgpu_only: bool) -> OfflineModelView {
    match largest_fit(vram, webgpu_only) {
        Some(m) => m,
        None => smallest(webgpu_only),
    }
}

/// The model of the older family for `vram` megabytes.
pub open spec fn tier(vram: u32) -> Seq<char> {
    if vram >= 12000 {
        "qwen2.5-7b"@
    } else if vram >= 7000 {
        "qwen2.5-3b"@
    } else if vram >= 4000 {
        "qwen2.5-1.5b"@
    } else {
        "qwen2.5-0.5b"@
    }
}

/// Whether a platform has processors enough for more than the smallest model.
pub open spec fn many_cores(caps: PlatformCaps) -> bool {
    match caps.cpu_cores {
        Some(c) => c >= 8,
        None => false,
    }
}

/// The id of the model of a family to run for an integration of a kind and device: in the browser
/// and on a GPU by the video memory, on the processor by the number of cores.
pub open spec fn recommended(
    family: Family,
    kind: Seq<char>,
    device: Seq<char>,
    caps: PlatformCaps,
) -> Seq<char> {
    let webgpu = kind == "webgpu"@;
    match family {
        Family::Qwen3 => if webgpu || (kind == "offline"@ && device == "gpu"@) {
            match caps.vram_mb {
                Some(v) => sized(v, webgpu).id,
                None => default_auto().id,
            }
        } else if kind == "offline"@ && many_cores(caps) {
            default_auto().id
        } else {
            smallest_auto().id
        },
        Family::Qwen25 => if webgpu || (kind == "offline"@ && device == "gpu"@) {
            match caps.vram_mb {
                Some(v) => tier(v),
                None => "qwen2.5-3b"@,
            }
        } else if kind == "offline"@ && many_cores(caps) {
            "qwen2.5-1.5b"@
        } else {
            "qwen2.5-0.5b"@
        },
    }
}

fn model_for_vram(vram: u32) -> (r: &'static str)
    ensures
        r@ == tier(vram),
{
    if vram >= 12000 {
        "qwen2.5-7b"
    } else if vram >= 7000 {
        "qwen2.5-3b"
    } else if vram >= 4000 {
        "qwen2.5-1.5b"
    } else {
        "qwen2.5-0.5b"
    }
}

/// The id of the model of a family to run for an integration of a kind and device.
pub fn recommend_model_in(family: Family, kind: &str, device: &str, caps: &PlatformCaps) -> (r:
    &'static str)
    ensures
        r@ == recommended(family, kind@, device@, *caps),
{
    let webgpu: bool = same(kind, "webgpu");
    let offline: bool = same(kind, "offline");
    let on_gpu: bool = webgpu || (offline && same(device, "gpu"));
    let many: bool = match caps.cpu_cores {
        Some(c) => c >= 8,
        None => false,
    };
    match family {
        Family::Qwen3 => if on_gpu {
            match caps.vram_mb {
                Some(v) => fitting_model(v, webgpu).id,
                None => default_auto_model().id,
            }
        } else if offline && many {
            default_auto_model().id
        } else {
            smallest_auto_model().id
        },
        Family::Qwen25 => if on_gpu {
            match caps.vram_mb {
                Some(v) => model_for_vram(v),
                None => "qwen2.5-3b",
            }
        } else if offline && many {
            "qwen2.5-1.5b"
        } else {
            "qwen2.5-0.5b"
        },
    }
}

/// The id of the model to run for an integration of a kind and device.
pub fn recommend_model(kind: &str, device: &str, caps: &PlatformCaps) -> (r: &'static str)
    ensures
        r@ == recommended(Family::Qwen3, kind@, device@, *caps),
{
    recommend_model_in(Family::Qwen3, kind, device, caps)
}

/// What is recommended is a model of the family.
pub proof fn law_recommended_is_known(
    family: Family,
    kind: Seq<char>,
    device: Seq<char>,
    caps: PlatformCaps,
)
    ensures
        has_model(family, recommended(family, kind, device, caps)),
{
    if family == Family::Qwen3 {
        let webgpu = kind == "webgpu"@;
        law_fallbacks(webgpu);
        match caps.vram_mb {
            Some(v) => {
                law_largest_fit(v, webgpu);
                lemma_has_contained(sized(v, webgpu));
            },
            None => {},
        }
        lemma_has_contained(default_auto());
        lemma_has_contained(smallest_auto());
    }
}

proof fn lemma_has_contained(m: OfflineModelView)
    requires
        catalogue().contains(m),
    ensures
        has_model(Family::Qwen3, m.id),
{
    let k = choose|k: int| 0 <= k < catalogue().len() && catalogue()[k] == m;
    lemma_model_found(catalogue(), k);
}

// ---------------------------------------------------------------------------------------------
// Integrations
// ---------------------------------------------------------------------------------------------

/// One configured way to reach a model.
#[derive(Debug)]
pub struct LlmIntegration {
    pub id: String,
    pub name: String,
    /// `offline` in this process, `online` over a service, `webgpu` in the browser.
    pub kind: String,
    pub provider: Option<String>,
    pub endpoint: Option<String>,
    pub model: Option<String>,
    pub api_key: Option<String>,
    pub offline_model: Option<String>,
    /// offline: `gpu` where it needs one.
    pub device: String,
}

#[verifier::ext_equal]
pub struct LlmIntegrationView {
    pub id: Seq<char>,
    pub name: Seq<char>,
    pub kind: Seq<char>,
    pub provider: Option<Seq<char>>,
    pub endpoint: Option<Seq<char>>,
    pub model: Option<Seq<char>>,
    pub api_key: Option<Seq<char>>,
    pub offline_model: Option<Seq<char>>,
    pub device: Seq<char>,
}

impl View for LlmIntegration {
    type V = LlmIntegrationView;

    open spec fn view(&self) -> LlmIntegrationView {
        LlmIntegrationView {
            id: self.id@,
            name: self.name@,
            kind: self.kind@,
            provider: opt_view(self.provider),
            endpoint: opt_view(self.endpoint),
            model: opt_view(self.model),
            api_key: opt_view(self.api_key),
            offline_model: opt_view(self.offline_model),
            device: self.device@,
        }
    }
}

impl Clone for LlmIntegration {
    fn clone(&self) -> (r: Self)
        ensures
            r == *self,
    {
        LlmIntegration {
            id: self.id.clone(),
            name: self.name.clone(),
            kind: self.kind.clone(),
            provider: clone_opt(&self.provider),
            endpoint: clone_opt(&self.endpoint),
            model: clone_opt(&self.model),
            api_key: clone_opt(&self.api_key),
            offline_model: clone_opt(&self.offline_model),
            device: self.device.clone(),
        }
    }
}

/// The integration with nothing filled in.
pub open spec fn blank_integration() -> LlmIntegrationView {
    LlmIntegrationView {
        id: Seq::empty(),
        name: Seq::empty(),
        kind: Seq::empty(),
        provider: None,
        endpoint: None,
        model: None,
        api_key: None,
        offline_model: None,
        device: Seq::empty(),
    }
}

impl Default for LlmIntegration {
    fn default() -> (r: Self)
        ensures
            r@ == blank_integration(),
    {
        let r: LlmIntegration = LlmIntegration {
            id: String::new(),
            name: String::new(),
            kind: String::new(),
            provider: None,
            endpoint: None,
            model: None,
            api_key: None,
            offline_model: None,
            device: String::new(),
        };
        assert(r@ =~= blank_integration());
        r
    }
}

/// The connection of an integration; one in the browser has none here.
pub open spec fn connection(i: LlmIntegrationView) -> AiConfigView {
    AiConfigView {
        mode: if i.kind == "offline"@ || i.kind == "online"@ {
            i.kind
        } else {
            "off"@
        },
        provider: i.provider,
        endpoint: i.endpoint,
        model: i.model,
        api_key: i.api_key,
        offline_model: i.offline_model,
    }
}

/// Whether an integration can run on a platform.
pub open spec fn runs_on(i: LlmIntegrationView, caps: PlatformCaps) -> bool {
    i.kind == "online"@ || (i.kind == "offline"@ && caps.embedded && (i.device != "gpu"@
        || caps.gpu)) || (i.kind == "webgpu"@ && caps.webgpu)
}

/// Whether a key is there and not blank.
pub open spec fn has_key(key: Option<Seq<char>>) -> bool {
    filled(key) is Some
}

/// Whether an integration is filled in: one to a hosted service needs a key.
pub open spec fn is_configured(family: Family, i: LlmIntegrationView) -> bool {
    if i.kind == "online"@ {
        is_enabled(family, connection(i)) && (is_custom(i.provider) || has_key(i.api_key))
    } else if i.kind == "offline"@ {
        is_enabled(family, connection(i))
    } else {
        i.kind == "webgpu"@ && (i.model is Some || i.offline_model is Some)
    }
}

impl LlmIntegration {
    fn to_ai_config(&self) -> (r: AiConfig)
        ensures
            r@ == connection(self@),
    {
        let mode: String = if same(self.kind.as_str(), "offline") || same(
            self.kind.as_str(),
            "online",
        ) {
            self.kind.clone()
        } else {
            "off".to_owned()
        };
        AiConfig {
            mode,
            provider: clone_opt(&self.provider),
            endpoint: clone_opt(&self.endpoint),
            model: clone_opt(&self.model),
            api_key: clone_opt(&self.api_key),
            offline_model: clone_opt(&self.offline_model),
        }
    }

    /// Whether this integration can run on a platform.
    pub fn compatible(&self, caps: &PlatformCaps) -> (r: bool)
        ensures
            r == runs_on(self@, *caps),
    {
        same(self.kind.as_str(), "online") || (same(self.kind.as_str(), "offline") && caps.embedded
            && (!same(self.device.as_str(), "gpu") || caps.gpu)) || (same(
            self.kind.as_str(),
            "webgpu",
        ) && caps.webgpu)
    }

    /// Whether this integration is filled in, with the models of a family.
    pub fn configured_in(&self, family: Family) -> (r: bool)
        ensures
            r == is_configured(family, self@),
    {
        if same(self.kind.as_str(), "online") {
            let custom: bool = match &self.provider {
                Some(p) => same(p.as_str(), "custom"),
                None => true,
            };
            self.to_ai_config().enabled_in(family) && (custom || nonempty(&self.api_key).is_some())
        } else if same(self.kind.as_str(), "offline") {
            self.to_ai_config().enabled_in(family)
        } else {
            same(self.kind.as_str(), "webgpu") && (self.model.is_some()
                || self.offline_model.is_some())
        }
    }

    /// Whether this integration is filled in.
    pub fn configured(&self) -> (r: bool)
        ensures
            r == is_configured(Family::Qwen3, self@),
    {
        self.configured_in(Family::Qwen3)
    }

    /// What answers for this integration, with the models of a family; nothing for one in the
    /// browser.
    pub fn build_in(&self, family: Family) -> (r: Option<Backend>)
        ensures
            opt_view(r) == backend_of(family, connection(self@)),
    {
        self.to_ai_config().build_in(family)
    }

    /// What answers for this integration; nothing for one in the browser.
    pub fn build(&self) -> (r: Option<Backend>)
        ensures
            opt_view(r) == backend_of(Family::Qwen3, connection(self@)),
    {
        self.build_in(Family::Qwen3)
    }
}

// ---------------------------------------------------------------------------------------------
// The registry
// ---------------------------------------------------------------------------------------------

/// The integrations of an owner, the preferred first.
#[derive(Debug)]
pub struct LlmConfig {
    pub integrations: Vec<LlmIntegration>,
    /// Whether they were chosen for the platform rather than by hand.
    pub auto: bool,
}

#[verifier::ext_equal]
pub struct LlmConfigView {
    pub integrations: Seq<LlmIntegrationView>,
    pub auto: bool,
}

impl View for LlmConfig {
    type V = LlmConfigView;

    open spec fn view(&self) -> LlmConfigView {
        LlmConfigView { integrations: views(self.integrations@), auto: self.auto }
    }
}

impl Default for LlmConfig {
    fn default() -> (r: Self)
        ensures
            r@ == (LlmConfigView { integrations: Seq::empty(), auto: false }),
    {
        let r: LlmConfig = LlmConfig { integrations: Vec::new(), auto: false };
        assert(r@ =~= LlmConfigView { integrations: Seq::empty(), auto: false });
        r
    }
}

/// Whether an integration runs a model of the catalogue, here or in the browser.
pub open spec fn is_local(i: LlmIntegrationView) -> bool {
    i.kind == "offline"@ || i.kind == "webgpu"@
}

/// An integration that runs a model in this process.
pub open spec fn local_entry(
    id: Seq<char>,
    name: Seq<char>,
    model: Seq<char>,
    device: Seq<char>,
) -> LlmIntegrationView {
    LlmIntegrationView {
        id,
        name,
        kind: "offline"@,
        offline_model: Some(model),
        device,
        ..blank_integration()
    }
}

/// An integration with a hosted service, without a key.
pub open spec fn cloud_entry(
    id: Seq<char>,
    name: Seq<char>,
    provider: Seq<char>,
) -> LlmIntegrationView {
    LlmIntegrationView {
        id,
        name,
        kind: "online"@,
        provider: Some(provider),
        ..blank_integration()
    }
}

/// The id of the model of a family for a GPU of which nothing is known.
pub open spec fn starting_model(family: Family) -> Seq<char> {
    match family {
        Family::Qwen3 => default_auto().id,
        Family::Qwen25 => "qwen2.5-1.5b"@,
    }
}

/// The id of the smallest model of a family.
pub open spec fn smallest_model(family: Family) -> Seq<char> {
    match family {
        Family::Qwen3 => smallest_auto().id,
        Family::Qwen25 => "qwen2.5-0.5b"@,
    }
}

/// The name that a local Ollama has for a model of the family.
pub open spec fn ollama_model(family: Family) -> Seq<char> {
    match family {
        Family::Qwen3 => "qwen3:1.7b"@,
        Family::Qwen25 => "qwen2.5:1.5b"@,
    }
}

/// The registry of a new owner: local models before services.
pub open spec fn first_registry(family: Family) -> LlmConfigView {
    LlmConfigView {
        integrations: seq![
            local_entry(
                "local-gpu"@,
                "On-device GPU (CUDA)"@,
                starting_model(family),
                "gpu"@,
            ),
            LlmIntegrationView {
                id: "webgpu"@,
                name: "In-browser (WebGPU)"@,
                kind: "webgpu"@,
                offline_model: Some(starting_model(family)),
                ..blank_integration()
            },
            local_entry("local-cpu"@, "On-device CPU"@, smallest_model(family), "cpu"@),
            LlmIntegrationView {
                id: "ollama"@,
                name: "Local Ollama"@,
                kind: "online"@,
                provider: Some("custom"@),
                endpoint: Some("http://localhost:11434/v1/chat/completions"@),
                model: Some(ollama_model(family)),
                ..blank_integration()
            },
            cloud_entry("anthropic"@, "Anthropic"@, "anthropic"@),
            cloud_entry("gemini"@, "Gemini (Google)"@, "gemini"@),
            cloud_entry("openai"@, "ChatGPT (OpenAI)"@, "openai"@),
        ],
        auto: false,
    }
}

fn new_local(id: &str, name: &str, model: &str, device: &str) -> (r: LlmIntegration)
    ensures
        r@ == local_entry(id@, name@, model@, device@),
{
    let mut r: LlmIntegration = LlmIntegration::default();
    r.id = id.to_owned();
    r.name = name.to_owned();
    r.kind = "offline".to_owned();
    r.offline_model = Some(model.to_owned());
    r.device = device.to_owned();
    assert(r@ =~= local_entry(id@, name@, model@, device@));
    r
}

fn new_cloud(id: &str, name: &str, provider: &str) -> (r: LlmIntegration)
    ensures
        r@ == cloud_entry(id@, name@, provider@),
{
    let mut r: LlmIntegration = LlmIntegration::default();
    r.id = id.to_owned();
    r.name = name.to_owned();
    r.kind = "online".to_owned();
    r.provider = Some(provider.to_owned());
    assert(r@ =~= cloud_entry(id@, name@, provider@));
    r
}

/// An integration with the model that is recommended for it, where it runs one.
pub open spec fn tuned(
    family: Family,
    i: LlmIntegrationView,
    caps: PlatformCaps,
) -> LlmIntegrationView {
    if is_local(i) {
        LlmIntegrationView {
            offline_model: Some(recommended(family, i.kind, i.device, caps)),
            ..i
        }
    } else {
        i
    }
}

/// Whether an integration names a model that the family does not have.
pub open spec fn is_dead(family: Family, i: LlmIntegrationView) -> bool {
    is_local(i) && (match i.offline_model {
        Some(id) => !has_model(family, id),
        None => false,
    })
}

/// An integration with its model replaced where the family does not have it.
pub open spec fn healed(
    family: Family,
    i: LlmIntegrationView,
    caps: PlatformCaps,
) -> LlmIntegrationView {
    if is_dead(family, i) {
        tuned(family, i, caps)
    } else {
        i
    }
}

/// Whether an integration can be used on a platform.
pub open spec fn is_usable(family: Family, i: LlmIntegrationView, caps: PlatformCaps) -> bool {
    runs_on(i, caps) && is_configured(family, i)
}

/// The first integration of a list that can be used on a platform.
pub open spec fn active(
    family: Family,
    list: Seq<LlmIntegrationView>,
    caps: PlatformCaps,
) -> Option<LlmIntegrationView>
    decreases list.len(),
{
    if list.len() == 0 {
        None
    } else if active(family, list.drop_last(), caps) is Some {
        active(family, list.drop_last(), caps)
    } else if is_usable(family, list.last(), caps) {
        Some(list.last())
    } else {
        None
    }
}

/// What answers for the first integration of a list that can be used on a platform and that
/// something answers for.
pub open spec fn answering(
    family: Family,
    list: Seq<LlmIntegrationView>,
    caps: PlatformCaps,
) -> Option<BackendView>
    decreases list.len(),
{
    if list.len() == 0 {
        None
    } else if answering(family, list.drop_last(), caps) is Some {
        answering(family, list.drop_last(), caps)
    } else if is_usable(family, list.last(), caps) {
        backend_of(family, connection(list.last()))
    } else {
        None
    }
}

impl LlmConfig {
    /// The registry with one connection; an empty one where the connection is off.
    pub fn from_single(cfg: AiConfig) -> (r: Self)
        ensures
            r@ == (if cfg@.mode == "online"@ || cfg@.mode == "offline"@ {
                LlmConfigView {
                    integrations: seq![
                        LlmIntegrationView {
                            id: "default"@,
                            name: "Default"@,
                            kind: cfg@.mode,
                            provider: cfg@.provider,
                            endpoint: cfg@.endpoint,
                            model: cfg@.model,
                            api_key: cfg@.api_key,
                            offline_model: cfg@.offline_model,
                            device: "cpu"@,
                        },
                    ],
                    auto: false,
                }
            } else {
                LlmConfigView { integrations: Seq::empty(), auto: false }
            }),
    {
        if !same(cfg.mode.as_str(), "online") && !same(cfg.mode.as_str(), "offline") {
            return LlmConfig::default();
        }
        let mut integrations: Vec<LlmIntegration> = Vec::new();
        let ghost one = LlmIntegrationView {
            id: "default"@,
            name: "Default"@,
            kind: cfg@.mode,
            provider: cfg@.provider,
            endpoint: cfg@.endpoint,
            model: cfg@.model,
            api_key: cfg@.api_key,
            offline_model: cfg@.offline_model,
            device: "cpu"@,
        };
        integrations.push(
            LlmIntegration {
                id: "default".to_owned(),
                name: "Default".to_owned(),
                kind: cfg.mode,
                provider: cfg.provider,
                endpoint: cfg.endpoint,
                model: cfg.model,
                api_key: cfg.api_key,
                offline_model: cfg.offline_model,
                device: "cpu".to_owned(),
            },
        );
        assert(views(integrations@) =~= seq![one]);
        LlmConfig { integrations, auto: false }
    }

    /// The registry of a new owner, with the models of a family.
    pub fn seeded_in(family: Family) -> (r: Self)
        ensures
            r@ == first_registry(family),
    {
        let start: &'static str = match family {
            Family::Qwen3 => default_auto_model().id,
            Family::Qwen25 => "qwen2.5-1.5b",
        };
        let small: &'static str = match family {
            Family::Qwen3 => smallest_auto_model().id,
            Family::Qwen25 => "qwen2.5-0.5b",
        };
        let ollama: &'static str = match family {
            Family::Qwen3 => "qwen3:1.7b",
            Family::Qwen25 => "qwen2.5:1.5b",
        };
        let mut integrations: Vec<LlmIntegration> = Vec::new();
        integrations.push(new_local("local-gpu", "On-device GPU (CUDA)", start, "gpu"));
        let mut browser: LlmIntegration = LlmIntegration::default();
        browser.id = "webgpu".to_owned();
        browser.name = "In-browser (WebGPU)".to_owned();
        browser.kind = "webgpu".to_owned();
        browser.offline_model = Some(start.to_owned());
        integrations.push(browser);
        integrations.push(new_local("local-cpu", "On-device CPU", small, "cpu"));
        let mut local: LlmIntegration = LlmIntegration::default();
        local.id = "ollama".to_owned();
        local.name = "Local Ollama".to_owned();
        local.kind = "online".to_owned();
        local.provider = Some("custom".to_owned());
        local.endpoint = Some("http://localhost:11434/v1/chat/completions".to_owned());
        local.model = Some(ollama.to_owned());
        integrations.push(local);
        integrations.push(new_cloud("anthropic", "Anthropic", "anthropic"));
        integrations.push(new_cloud("gemini", "Gemini (Google)", "gemini"));
        integrations.push(new_cloud("openai", "ChatGPT (OpenAI)", "openai"));
        let r: LlmConfig = LlmConfig { integrations, auto: false };
        assert(r@.integrations =~= first_registry(family).integrations);
        r
    }

    /// The registry of a new owner.
    pub fn seeded() -> (r: Self)
        ensures
            r@ == first_registry(Family::Qwen3),
    {
        LlmConfig::seeded_in(Family::Qwen3)
    }

    /// The registry of a new owner, with the models of a family that suit the platform.
    pub fn seeded_for_in(family: Family, caps: &PlatformCaps) -> (r: Self)
        ensures
            r@.auto,
            r@.integrations == first_registry(family).integrations.map_values(
                |i: LlmIntegrationView| tuned(family, i, *caps),
            ),
    {
        let first: LlmConfig = LlmConfig::seeded_in(family);
        let ghost all = first@.integrations.map_values(
            |i: LlmIntegrationView| tuned(family, i, *caps),
        );
        let mut integrations: Vec<LlmIntegration> = Vec::new();
        let mut k: usize = 0;
        while k < first.integrations.len()
            invariant
                k <= first.integrations@.len(),
                all == first@.integrations.map_values(
                    |i: LlmIntegrationView| tuned(family, i, *caps),
                ),
                views(integrations@) == all.take(k as int),
            decreases first.integrations@.len() - k,
        {
            let mut i: LlmIntegration = first.integrations[k].clone();
            assert(i@ == first@.integrations[k as int]);
            let ghost before = i@;
            if same(i.kind.as_str(), "offline") || same(i.kind.as_str(), "webgpu") {
                i.offline_model = Some(
                    recommend_model_in(
                        family,
                        i.kind.as_str(),
                        i.device.as_str(),
                        caps,
                    ).to_owned(),
                );
            }
            assert(i@ =~= tuned(family, before, *caps));
            integrations.push(i);
            assert(views(integrations@) =~= all.take(k + 1));
            k += 1;
        }
        assert(all.take(k as int) =~= all);
        LlmConfig { integrations, auto: true }
    }

    /// The registry of a new owner, with the models that suit the platform.
    pub fn seeded_for(caps: &PlatformCaps) -> (r: Self)
        ensures
            r@.auto,
            r@.integrations == first_registry(Family::Qwen3).integrations.map_values(
                |i: LlmIntegrationView| tuned(Family::Qwen3, i, *caps),
            ),
    {
        LlmConfig::seeded_for_in(Family::Qwen3, caps)
    }

    /// Replaces each model that is not in the catalogue by the one that is recommended for its
    /// integration, and says whether there was any.
    pub fn normalize_models(&mut self, caps: &PlatformCaps) -> (changed: bool)
        ensures
            final(self)@ == (LlmConfigView {
                integrations: old(self)@.integrations.map_values(
                    |i: LlmIntegrationView| healed(Family::Qwen3, i, *caps),
                ),
                auto: old(self)@.auto,
            }),
            changed == exists|k: int|
                0 <= k < old(self)@.integrations.len() && is_dead(
                    Family::Qwen3,
                    #[trigger] old(self)@.integrations[k],
                ),
    {
        let ghost start = self@.integrations;
        let ghost all = start.map_values(
            |i: LlmIntegrationView| healed(Family::Qwen3, i, *caps),
        );
        let mut integrations: Vec<LlmIntegration> = Vec::new();
        let mut changed: bool = false;
        let mut k: usize = 0;
        while k < self.integrations.len()
            invariant
                k <= self.integrations@.len(),
                start == views(self.integrations@),
                self.auto == old(self).auto,
                all == start.map_values(
                    |i: LlmIntegrationView| healed(Family::Qwen3, i, *caps),
                ),
                views(integrations@) == all.take(k as int),
                changed == exists|j: int|
                    0 <= j < k && is_dead(Family::Qwen3, #[trigger] start[j]),
            decreases self.integrations@.len() - k,
        {
            let mut i: LlmIntegration = self.integrations[k].clone();
            assert(i@ == start[k as int]);
            let ghost before = i@;
            let local: bool = same(i.kind.as_str(), "offline") || same(i.kind.as_str(), "webgpu");
            let dead: bool = match &i.offline_model {
                Some(id) => local && !Family::Qwen3.knows(id.as_str()),
                None => false,
            };
            assert(dead == is_dead(Family::Qwen3, start[k as int]));
            if dead {
                i.offline_model = Some(
                    recommend_model(i.kind.as_str(), i.device.as_str(), caps).to_owned(),
                );
                changed = true;
            }
            assert(i@ =~= healed(Family::Qwen3, before, *caps));
            integrations.push(i);
            assert(views(integrations@) =~= all.take(k + 1));
            k += 1;
        }
        assert(all.take(k as int) =~= all);
        self.integrations = integrations;
        changed
    }

    /// What answers on a platform, with the models of a family.
    pub fn resolve_in(&self, family: Family, caps: &PlatformCaps) -> (r: Option<Backend>)
        ensures
            opt_view(r) == answering(family, self@.integrations, *caps),
    {
        let ghost all = self@.integrations;
        let mut k: usize = 0;
        while k < self.integrations.len()
            invariant
                k <= self.integrations@.len(),
                all == views(self.integrations@),
                answering(family, all.take(k as int), *caps) is None,
            decreases self.integrations@.len() - k,
        {
            proof {
                lemma_take_step(all, k as int);
            }
            let i: &LlmIntegration = &self.integrations[k];
            if i.compatible(caps) && i.configured_in(family) {
                let b: Option<Backend> = i.build_in(family);
                if b.is_some() {
                    proof {
                        lemma_found_stays(
                            |l: Seq<LlmIntegrationView>| answering(family, l, *caps),
                            all,
                            k + 1,
                        );
                    }
                    return b;
                }
            }
            k += 1;
        }
        assert(all.take(k as int) =~= all);
        None
    }

    /// What answers on a platform.
    pub fn resolve(&self, caps: &PlatformCaps) -> (r: Option<Backend>)
        ensures
            opt_view(r) == answering(Family::Qwen3, self@.integrations, *caps),
    {
        self.resolve_in(Family::Qwen3, caps)
    }

    /// The id of the integration that is used on a platform, with the models of a family; one in
    /// the browser counts.
    pub fn active_id_in(&self, family: Family, caps: &PlatformCaps) -> (r: Option<&str>)
        ensures
            match r {
                Some(id) => active(family, self@.integrations, *caps) is Some && id@ == active(
                    family,
                    self@.integrations,
                    *caps,
                )->0.id,
                None => active(family, self@.integrations, *caps) is None,
            },
    {
        let ghost all = self@.integrations;
        let mut k: usize = 0;
        while k < self.integrations.len()
            invariant
                k <= self.integrations@.len(),
                all == views(self.integrations@),
                active(family, all.take(k as int), *caps) is None,
            decreases self.integrations@.len() - k,
        {
            proof {
                lemma_take_step(all, k as int);
            }
            let i: &LlmIntegration = &self.integrations[k];
            if i.compatible(caps) && i.configured_in(family) {
                proof {
                    lemma_found_stays(
                        |l: Seq<LlmIntegrationView>| active(family, l, *caps),
                        all,
                        k + 1,
                    );
                }
                return Some(i.id.as_str());
            }
            k += 1;
        }
        assert(all.take(k as int) =~= all);
        None
    }

    /// The id of the integration that is used on a platform; one in the browser counts.
    pub fn active_id(&self, caps: &PlatformCaps) -> (r: Option<&str>)
        ensures
            match r {
                Some(id) => active(Family::Qwen3, self@.integrations, *caps) is Some && id@
                    == active(Family::Qwen3, self@.integrations, *caps)->0.id,
                None => active(Family::Qwen3, self@.integrations, *caps) is None,
            },
    {
        self.active_id_in(Family::Qwen3, caps)
    }
}

// ---------------------------------------------------------------------------------------------
// Laws
// ---------------------------------------------------------------------------------------------

/// Choosing models for a platform leaves every integration in its place, and changes nothing about
/// it but the model that it runs.
pub proof fn law_tuning_keeps_order(family: Family, caps: PlatformCaps, k: int)
    requires
        0 <= k < first_registry(family).integrations.len(),
    ensures
        ({
            let before = first_registry(family).integrations;
            let after = before.map_values(|i: LlmIntegrationView| tuned(family, i, caps));
            &&& after.len() == before.len()
            &&& after[k] == (LlmIntegrationView {
                offline_model: after[k].offline_model,
                ..before[k]
            })
            &&& is_local(before[k]) ==> after[k].offline_model is Some && has_model(
                family,
                after[k].offline_model->0,
            )
        }),
{
    let i = first_registry(family).integrations[k];
    law_recommended_is_known(family, i.kind, i.device, caps);
}

/// After healing no integration names a model that the family does not have.
pub proof fn law_healing_heals(family: Family, i: LlmIntegrationView, caps: PlatformCaps)
    ensures
        !is_dead(family, healed(family, i, caps)),
        healed(family, healed(family, i, caps), caps) == healed(family, i, caps),
{
    law_recommended_is_known(family, i.kind, i.device, caps);
}

/// Healing leaves an integration alone whose model the family has.
pub proof fn law_healing_keeps_choices(family: Family, i: LlmIntegrationView, caps: PlatformCaps)
    requires
        i.offline_model is Some ==> has_model(family, i.offline_model->0),
    ensures
        healed(family, i, caps) == i,
{
}

proof fn lemma_usable_answers(family: Family, i: LlmIntegrationView, caps: PlatformCaps)
    requires
        is_usable(family, i, caps),
        i.kind != "webgpu"@,
    ensures
        backend_of(family, connection(i)) is Some,
{
    law_enabled_connections_answer(family, connection(i));
}

/// The integration that is used answers, unless it runs in the browser.
pub proof fn law_active_integration_answers(
    family: Family,
    list: Seq<LlmIntegrationView>,
    caps: PlatformCaps,
)
    ensures
        active(family, list, caps) is None ==> answering(family, list, caps) is None,
        active(family, list, caps) is Some && active(family, list, caps)->0.kind != "webgpu"@
            ==> answering(family, list, caps) is Some && answering(family, list, caps)
            == backend_of(family, connection(active(family, list, caps)->0)),
    decreases list.len(),
{
    if list.len() > 0 {
        law_active_integration_answers(family, list.drop_last(), caps);
        if active(family, list.drop_last(), caps) is None && is_usable(family, list.last(), caps)
            && list.last().kind != "webgpu"@ {
            lemma_usable_answers(family, list.last(), caps);
        }
    }
}

/// Nothing answers here for an integration in the browser.
pub proof fn law_browser_answers_for_itself(family: Family, i: LlmIntegrationView)
    requires
        i.kind == "webgpu"@,
    ensures
        backend_of(family, connection(i)) is None,
{
    reveal_strlit("online");
    reveal_strlit("offline");
    reveal_strlit("off");
    reveal_strlit("webgpu");
    assert("webgpu"@[0] != "online"@[0]);
    assert("offline"@.len() != "webgpu"@.len());
    assert("off"@.len() == 3);
}

/// The integration that is used can run on the platform and is filled in, and none before it is.
pub proof fn law_active_is_first_usable(
    family: Family,
    list: Seq<LlmIntegrationView>,
    caps: PlatformCaps,
)
    ensures
        match active(family, list, caps) {
            Some(i) => exists|k: int|
                0 <= k < list.len() && #[trigger] list[k] == i && is_usable(family, i, caps)
                    && forall|j: int|
                    0 <= j < k ==> !is_usable(family, #[trigger] list[j], caps),
            None => forall|j: int|
                0 <= j < list.len() ==> !is_usable(family, #[trigger] list[j], caps),
        },
    decreases list.len(),
{
    if list.len() > 0 {
        let head = list.drop_last();
        law_active_is_first_usable(family, head, caps);
        match active(family, head, caps) {
            Some(i) => {
                let k = choose|k: int|
                    0 <= k < head.len() && #[trigger] head[k] == i && is_usable(family, i, caps)
                        && forall|j: int|
                        0 <= j < k ==> !is_usable(family, #[trigger] head[j], caps);
                assert(list[k] == i);
                assert forall|j: int| 0 <= j < k implies !is_usable(
                    family,
                    #[trigger] list[j],
                    caps,
                ) by {
                    assert(head[j] == list[j]);
                }
            },
            None => {
                assert forall|j: int| 0 <= j < head.len() implies !is_usable(
                    family,
                    #[trigger] list[j],
                    caps,
                ) by {
                    assert(head[j] == list[j]);
                }
                assert(list[list.len() - 1] == list.last());
            },
        }
    }
}

} // verus!
