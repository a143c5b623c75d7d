//! The telemetry exporters that the dashboard is started with: the
//! options a caller gives (a Python dict in the bindings) and the
//! configuration they amount to, defaults filled in.

use vstd::prelude::*;

verus! {

/// The Prometheus exporter's settings.
pub struct PrometheusConfig {
    pub enabled: bool,
    pub namespace: Option<String>,
}

/// The OTLP exporter's settings.
pub struct OtlpConfig {
    pub enabled: bool,
    pub endpoint: String,
    pub protocol: String,
    pub service_name: Option<String>,
    pub interval_secs: u64,
    pub headers: Vec<(String, String)>,
    pub resource_attributes: Vec<(String, String)>,
    pub traces: bool,
    pub stdout: bool,
}

/// Which exporters run, and how.
pub struct ExportersConfig {
    pub prometheus: Option<PrometheusConfig>,
    pub otlp: Option<OtlpConfig>,
}

impl Default for ExportersConfig {
    /// No exporter.
    fn default() -> (c: Self)
        ensures
            c.prometheus is None,
            c.otlp is None,
    {
        ExportersConfig { prometheus: None, otlp: None }
    }
}

/// The `prometheus` option: a bare switch or a table of settings.
pub enum PrometheusOption {
    Switch(bool),
    Table { enabled: Option<bool>, namespace: Option<String> },
}

/// The `otlp` option's entries, each possibly absent.
pub struct OtlpOptions {
    pub endpoint: Option<String>,
    pub protocol: Option<String>,
    pub service_name: Option<String>,
    pub interval_secs: Option<u64>,
    pub stdout: Option<bool>,
    pub headers: Option<Vec<(String, String)>>,
    pub resource_attributes: Option<Vec<(String, String)>>,
}

/// The exporter options, each possibly absent.
pub struct ExporterOptions {
    pub prometheus: Option<PrometheusOption>,
    pub otlp: Option<OtlpOptions>,
}

/// Why exporter options were refused.
#[derive(Clone, Copy, Debug, PartialEq, Eq, Structural)]
pub enum ExportersError {
    /// An `otlp` table without an `endpoint`.
    OtlpEndpointRequired,
}

impl ExportersError {
    /// The error text.
    pub fn message(&self) -> (s: &'static str)
        ensures
            s@ == "exporters.otlp requires `endpoint`"@,
    {
        "exporters.otlp requires `endpoint`"
    }
}

/// The Prometheus settings an option amounts to: a switch gives no
/// namespace; a table is enabled unless it says otherwise.
pub open spec fn prometheus_of(o: PrometheusOption) -> (bool, Option<Seq<char>>) {
    match o {
        PrometheusOption::Switch(b) => (b, None),
        PrometheusOption::Table { enabled, namespace } => (
            match enabled {
                Some(b) => b,
                None => true,
            },
            match namespace {
                Some(n) => Some(n@),
                None => None,
            },
        ),
    }
}

/// The views of optional text.
pub open spec fn opt_view(o: Option<String>) -> Option<Seq<char>> {
    match o {
        Some(s) => Some(s@),
        None => None,
    }
}

/// The pairs given, or none.
pub open spec fn pairs_or_empty(o: Option<Vec<(String, String)>>) -> Seq<(String, String)> {
    match o {
        Some(v) => v@,
        None => Seq::empty(),
    }
}

/// `c` holds what the OTLP options `o` ask for: the endpoint they give,
/// protocol `grpc`, a 30 s interval and no stdout copy unless they say
/// otherwise, the headers and resource attributes they give (none
/// otherwise), enabled and with traces.
pub open spec fn otlp_matches(c: OtlpConfig, o: OtlpOptions) -> bool {
    &&& o.endpoint matches Some(e) && c.endpoint@ == e@
    &&& c.enabled
    &&& c.protocol@ == match o.protocol {
        Some(p) => p@,
        None => "grpc"@,
    }
    &&& opt_view(c.service_name) == opt_view(o.service_name)
    &&& c.interval_secs == match o.interval_secs {
        Some(n) => n,
        None => 30,
    }
    &&& c.stdout == match o.stdout {
        Some(b) => b,
        None => false,
    }
    &&& c.headers@ == pairs_or_empty(o.headers)
    &&& c.resource_attributes@ == pairs_or_empty(o.resource_attributes)
    &&& c.traces
}

fn pairs_or_new(o: Option<Vec<(String, String)>>) -> (v: Vec<(String, String)>)
    ensures
        v@ == pairs_or_empty(o),
{
    match o {
        Some(v) => v,
        None => Vec::new(),
    }
}

/// The exporters configuration that `options` ask for; no options mean
/// no exporter. Refused when an `otlp` table has no endpoint.
pub fn parse_exporters(options: Option<ExporterOptions>) -> (r: Result<ExportersConfig, ExportersError>)
    ensures
        match options {
            None => r matches Ok(c) && c.prometheus is None && c.otlp is None,
            Some(o) => match o.otlp {
                Some(t) if t.endpoint is None => r == Err::<ExportersConfig, ExportersError>(
                    ExportersError::OtlpEndpointRequired,
                ),
                _ => r matches Ok(c) && {
                    &&& match o.prometheus {
                        None => c.prometheus is None,
                        Some(p) => c.prometheus matches Some(pc) && (pc.enabled, opt_view(
                            pc.namespace,
                        )) == prometheus_of(p),
                    }
                    &&& match o.otlp {
                        None => c.otlp is None,
                        Some(t) => c.otlp matches Some(oc) && otlp_matches(oc, t),
                    }
                },
            },
        },
{
    let o = match options {
        None => {
            return Ok(ExportersConfig::default());
        },
        Some(o) => o,
    };
    let mut out = ExportersConfig::default();
    match o.prometheus {
        None => {},
        Some(PrometheusOption::Switch(enabled)) => {
            out.prometheus = Some(PrometheusConfig { enabled, namespace: None });
        },
        Some(PrometheusOption::Table { enabled, namespace }) => {
            let enabled = match enabled {
                Some(b) => b,
                None => true,
            };
            out.prometheus = Some(PrometheusConfig { enabled, namespace });
        },
    }
    match o.otlp {
        None => {},
        Some(t) => {
            let endpoint = match t.endpoint {
                Some(e) => e,
                None => {
                    return Err(ExportersError::OtlpEndpointRequired);
                },
            };
            let protocol = match t.protocol {
                Some(p) => p,
                None => String::from_str("grpc"),
            };
            let interval_secs = match t.interval_secs {
                Some(n) => n,
                None => 30,
            };
            let stdout = match t.stdout {
                Some(b) => b,
                None => false,
            };
            out.otlp = Some(
                OtlpConfig {
                    enabled: true,
                    endpoint,
                    protocol,
                    service_name: t.service_name,
                    interval_secs,
                    headers: pairs_or_new(t.headers),
                    resource_attributes: pairs_or_new(t.resource_attributes),
                    traces: true,
                    stdout,
                },
            );
        },
    }
    Ok(out)
}

} // verus!
