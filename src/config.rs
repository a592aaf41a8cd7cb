//! The settings a pipeline is started from, and their validation.
use vstd::prelude::*;

use crate::retry::RetryPolicy;
use crate::span::Attribute;

verus! {

/// The collector endpoint an OTLP exporter uses when none is given.
pub const DEFAULT_OTLP_ENDPOINT: &'static str = "http://localhost:4317";

/// The transport a pipeline exports through, each with its own settings.
#[derive(Clone, Debug)]
pub enum TransportKind {
    /// OTLP over gRPC; `None` means the default collector endpoint.
    Otlp { endpoint: Option<String> },
    /// A Jaeger agent or collector at the given endpoint.
    Jaeger { agent_endpoint: String },
    /// Spans are written to the console.
    Console,
}

/// Why a configuration was refused.
#[derive(Clone, Copy, Debug, PartialEq, Eq, Structural)]
pub enum ConfigError {
    EmptyServiceName,
    EmptyEndpoint,
    ZeroBufferCapacity,
    ZeroBatchSize,
    ZeroRetryQueueBound,
    ZeroConcurrencyLimit,
    BackoffCapBelowBase,
}

/// Everything a pipeline is started from. It is not changed afterwards.
#[derive(Clone, Debug)]
pub struct ExportConfig {
    pub service_name: String,
    pub resource_attributes: Vec<Attribute>,
    pub transport: TransportKind,
    /// Fixed-point ratio, see `sampler::RATIO_SCALE`; clamped when used.
    pub sampling_ratio: i64,
    pub buffer_capacity: usize,
    pub max_batch_size: usize,
    pub max_batch_delay_ms: u64,
    pub retry: RetryPolicy,
    pub retry_queue_bound: usize,
    pub max_concurrent_exports: usize,
    pub shutdown_deadline_ms: u64,
}

/// Whether a transport names an empty endpoint.
pub open spec fn endpoint_is_empty(t: TransportKind) -> bool {
    match t {
        TransportKind::Otlp { endpoint } => endpoint is Some && endpoint.unwrap()@.len() == 0,
        TransportKind::Jaeger { agent_endpoint } => agent_endpoint@.len() == 0,
        TransportKind::Console => false,
    }
}

/// The first problem with a configuration, checked in a fixed order, or
/// `None` when it can be used.
pub open spec fn config_problem(c: ExportConfig) -> Option<ConfigError> {
    if c.service_name@.len() == 0 {
        Some(ConfigError::EmptyServiceName)
    } else if endpoint_is_empty(c.transport) {
        Some(ConfigError::EmptyEndpoint)
    } else if c.buffer_capacity == 0 {
        Some(ConfigError::ZeroBufferCapacity)
    } else if c.max_batch_size == 0 {
        Some(ConfigError::ZeroBatchSize)
    } else if c.retry_queue_bound == 0 {
        Some(ConfigError::ZeroRetryQueueBound)
    } else if c.max_concurrent_exports == 0 {
        Some(ConfigError::ZeroConcurrencyLimit)
    } else if c.retry.max_delay_ms < c.retry.base_delay_ms {
        Some(ConfigError::BackoffCapBelowBase)
    } else {
        None
    }
}

impl ExportConfig {
    /// Accepts the configuration or names its first problem.
    pub fn validate(&self) -> (r: Result<(), ConfigError>)
        ensures
            config_problem(*self) is None ==> r is Ok,
            config_problem(*self) is Some ==> r == Err::<(), ConfigError>(
                config_problem(*self).unwrap(),
            ),
    {
        if self.service_name.as_str().is_empty() {
            return Err(ConfigError::EmptyServiceName);
        }
        let empty_endpoint = match &self.transport {
            TransportKind::Otlp { endpoint } => match endpoint {
                Some(e) => e.as_str().is_empty(),
                None => false,
            },
            TransportKind::Jaeger { agent_endpoint } => agent_endpoint.as_str().is_empty(),
            TransportKind::Console => false,
        };
        if empty_endpoint {
            Err(ConfigError::EmptyEndpoint)
        } else if self.buffer_capacity == 0 {
            Err(ConfigError::ZeroBufferCapacity)
        } else if self.max_batch_size == 0 {
            Err(ConfigError::ZeroBatchSize)
        } else if self.retry_queue_bound == 0 {
            Err(ConfigError::ZeroRetryQueueBound)
        } else if self.max_concurrent_exports == 0 {
            Err(ConfigError::ZeroConcurrencyLimit)
        } else if self.retry.max_delay_ms < self.retry.base_delay_ms {
            Err(ConfigError::BackoffCapBelowBase)
        } else {
            Ok(())
        }
    }
}

/// The endpoint an OTLP transport connects to: the one given, else the default.
pub fn otlp_endpoint(endpoint: &Option<String>) -> (r: &str)
    ensures
        endpoint is Some ==> r@ == endpoint.unwrap()@,
        endpoint is None ==> r@ == DEFAULT_OTLP_ENDPOINT@,
{
    match endpoint {
        Some(e) => e.as_str(),
        None => DEFAULT_OTLP_ENDPOINT,
    }
}

} // verus!
