//! AI service endpoints: their table and health, the probe engine that
//! keeps the health current, and the discovery of local services.
pub mod endpoints;
pub mod table;
pub mod probe;
pub mod discovery;
pub mod docker;

pub use discovery::DiscoveryEngine;
pub use endpoints::{AiEndpoint, EndpointHealth, EndpointType, HealthStatus};
pub use probe::ProbeEngine;
