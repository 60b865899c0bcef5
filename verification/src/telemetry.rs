//! Telemetry settings: which sinks are on, and how loud they are.
use crate::text::{cat2, is_blank, same, strip_end, stripped_end, to_lower, trim, trimmed, lower};
use vstd::prelude::*;

pub mod laws;

verus! {

/// Whether a setting's text switches it on: `1`, `true`, `yes` or `on`, in any case.
pub open spec fn truthy(v: Seq<char>) -> bool {
    let t = lower(trimmed(v));
    t == "1"@ || t == "true"@ || t == "yes"@ || t == "on"@
}

/// Whether a setting's text switches it on.
pub fn is_truthy(v: &str) -> (r: bool)
    ensures
        r == truthy(v@),
{
    let t: String = to_lower(trim(v).as_str());
    let t: &str = t.as_str();
    same(t, "1") || same(t, "true") || same(t, "yes") || same(t, "on")
}

/// Where telemetry is sent over OTLP, and whether it is.
#[derive(Debug, Clone)]
pub struct OtlpSettings {
    pub enabled: bool,
    pub endpoint: String,
}

impl Default for OtlpSettings {
    fn default() -> (r: Self)
        ensures
            !r.enabled,
            r.endpoint@ == "http://localhost:4318"@,
    {
        OtlpSettings { enabled: false, endpoint: "http://localhost:4318".to_owned() }
    }
}

impl OtlpSettings {
    /// The collector's base address, without trailing slashes.
    pub fn base_endpoint(&self) -> (r: String)
        ensures
            r@ == stripped_end(self.endpoint@, "/"@),
    {
        strip_end(self.endpoint.as_str(), "/")
    }
}

/// Which sinks are on and how loud.
#[derive(Debug, Clone)]
pub struct TelemetrySettings {
    pub console: bool,
    pub console_json: bool,
    pub file: bool,
    /// An explicit filter directive; the environment's default level where there is none.
    pub level: Option<String>,
    pub otlp: OtlpSettings,
}

impl Default for TelemetrySettings {
    fn default() -> (r: Self)
        ensures
            r.console,
            !r.console_json,
            !r.file,
            r.level is None,
            !r.otlp.enabled,
            r.otlp.endpoint@ == "http://localhost:4318"@,
    {
        TelemetrySettings {
            console: true,
            console_json: false,
            file: false,
            level: None,
            otlp: OtlpSettings::default(),
        }
    }
}

/// The environment variables that telemetry reads, as far as they are set.
#[derive(Debug, Clone)]
pub struct TelemetryEnv {
    pub console: Option<String>,
    pub console_json: Option<String>,
    pub file: Option<String>,
    pub level: Option<String>,
    pub otlp_endpoint: Option<String>,
    pub otlp_enabled: Option<String>,
}

/// What an optional switch comes to: its text where it is set, else the default.
pub open spec fn switch(v: Option<String>, default: bool) -> bool {
    match v {
        Some(t) => truthy(t@),
        None => default,
    }
}

/// Whether a variable is set to something that is not blank.
pub open spec fn given(v: Option<String>) -> bool {
    v matches Some(t) && trimmed(t@).len() > 0
}

fn flag(v: &Option<String>, default: bool) -> (r: bool)
    ensures
        r == switch(*v, default),
{
    match v {
        Some(t) => is_truthy(t.as_str()),
        None => default,
    }
}

impl TelemetrySettings {
    /// The settings that the environment asks for. An endpoint switches OTLP on, unless its own
    /// switch says otherwise.
    pub fn from_env(env: &TelemetryEnv) -> (r: Self)
        ensures
            r.console == switch(env.console, true),
            r.console_json == switch(env.console_json, false),
            r.file == switch(env.file, false),
            r.level == (if given(env.level) {
                env.level
            } else {
                None
            }),
            r.otlp.enabled == switch(env.otlp_enabled, given(env.otlp_endpoint)),
            r.otlp.endpoint@ == (if given(env.otlp_endpoint) {
                env.otlp_endpoint->0@
            } else {
                "http://localhost:4318"@
            }),
    {
        let mut s: TelemetrySettings = TelemetrySettings::default();
        s.console = flag(&env.console, s.console);
        s.console_json = flag(&env.console_json, s.console_json);
        s.file = flag(&env.file, s.file);
        s.level = match &env.level {
            Some(v) => if is_blank(v.as_str()) {
                None
            } else {
                Some(v.clone())
            },
            None => None,
        };
        match &env.otlp_endpoint {
            Some(ep) => {
                if !is_blank(ep.as_str()) {
                    s.otlp.endpoint = ep.clone();
                    s.otlp.enabled = true;
                }
            },
            None => {},
        }
        s.otlp.enabled = flag(&env.otlp_enabled, s.otlp.enabled);
        s
    }

    /// The filter directives: the base level, then limits for chatty dependencies.
    pub fn directives(&self, env: Environment) -> (r: String)
        ensures
            r@ == (match self.level {
                Some(l) => l@,
                None => default_level_of(env),
            }) + NOISE_LIMITS@,
    {
        match &self.level {
            Some(l) => cat2(l.as_str(), NOISE_LIMITS),
            None => cat2(env.default_level(), NOISE_LIMITS),
        }
    }
}

/// Limits for chatty dependencies, whatever the base level.
pub const NOISE_LIMITS: &'static str = ",hyper=warn,h2=warn,tower=warn,tower_http=info,reqwest=warn,sqlx=warn,tonic=warn,tokio_util=warn,opentelemetry=warn,opentelemetry_sdk=warn,tao=warn,wry=warn,webview2_com=warn";

/// Where the program runs.
#[derive(Debug, Clone, Copy, PartialEq, Eq, Structural)]
pub enum Environment {
    Dev,
    Prod,
}

pub open spec fn default_level_of(env: Environment) -> Seq<char> {
    match env {
        Environment::Dev => "debug"@,
        Environment::Prod => "warn"@,
    }
}

impl Environment {
    /// The filter directive where none is configured.
    pub fn default_level(self) -> (r: &'static str)
        ensures
            r@ == default_level_of(self),
    {
        match self {
            Environment::Dev => "debug",
            Environment::Prod => "warn",
        }
    }
}

/// Who emits telemetry, and where its files may go.
#[derive(Debug, Clone)]
pub struct RuntimeInfo {
    pub service_name: String,
    pub service_version: String,
    pub environment: Environment,
    /// The directory for log files, as text.
    pub log_dir: String,
    pub console_stderr: bool,
}

impl RuntimeInfo {
    /// Runtime facts with the console on standard output.
    pub fn new(
        service_name: String,
        service_version: String,
        environment: Environment,
        log_dir: String,
    ) -> (r: Self)
        ensures
            r.service_name == service_name,
            r.service_version == service_version,
            r.environment == environment,
            r.log_dir == log_dir,
            !r.console_stderr,
    {
        RuntimeInfo { service_name, service_version, environment, log_dir, console_stderr: false }
    }

    /// The same facts, with the console on standard error or not.
    pub fn with_console_stderr(self, yes: bool) -> (r: Self)
        ensures
            r == (RuntimeInfo { console_stderr: yes, ..self }),
    {
        let mut r: RuntimeInfo = self;
        r.console_stderr = yes;
        r
    }
}

/// Why telemetry could not be set up.
#[derive(Debug, Clone, PartialEq, Eq)]
pub enum TelemetryError {
    AlreadyInitialised,
    Sink(String),
}

impl TelemetryError {
    /// The error in words.
    pub fn message(&self) -> (r: String)
        ensures
            r@ == (match self {
                TelemetryError::AlreadyInitialised => "telemetry already initialised"@,
                TelemetryError::Sink(m) => "telemetry sink setup failed: "@ + m@,
            }),
    {
        match self {
            TelemetryError::AlreadyInitialised => "telemetry already initialised".to_owned(),
            TelemetryError::Sink(m) => cat2("telemetry sink setup failed: ", m.as_str()),
        }
    }
}

} // verus!
