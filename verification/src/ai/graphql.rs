//! Health reports and error locations of the GraphQL backend.

use vstd::prelude::*;
use crate::text::str_eq;

verus! {

/// GraphQL error location.
#[derive(Debug, Clone, Copy, PartialEq, Eq, Structural)]
pub struct GraphQLErrorLocation {
    pub line: u32,
    pub column: u32,
}

/// Health status response.
#[derive(Debug, Clone)]
pub struct HealthStatus {
    pub status: String,
    pub timestamp: Option<i64>,
    pub checks: Option<HealthChecks>,
}

/// Health check components.
#[derive(Debug, Clone)]
pub struct HealthChecks {
    pub database: Option<ComponentHealth>,
    pub redis: Option<ComponentHealth>,
    pub ai_providers: Option<ComponentHealth>,
    pub disk: Option<ComponentHealth>,
}

/// Component health status.
#[derive(Debug, Clone)]
pub struct ComponentHealth {
    pub status: String,
}

impl HealthStatus {
    /// Whether the service reports itself up.
    pub fn is_healthy(&self) -> (b: bool)
        ensures
            b == (self.status@ == "UP"@),
    {
        str_eq(self.status.as_str(), "UP")
    }
}

} // verus!
