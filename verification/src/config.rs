//! What a server is configured with, and what it reports of its health.

use vstd::prelude::*;

verus! {

/// The configuration of a server.
#[derive(Debug)]
pub struct McpServerConfig {
    /// The name that the server advertises.
    pub name: String,
    /// The version that the server advertises.
    pub version: String,
    /// Whether the method `batch` is served.
    pub enable_batch: bool,
    /// The most requests that one batch may carry.
    pub max_batch_size: usize,
    /// The host that a transport binds to.
    pub bind_host: String,
    /// The port that a transport binds to.
    pub bind_port: u16,
}

impl Default for McpServerConfig {
    fn default() -> (config: Self)
        ensures
            config.name@ == "MCP Server"@,
            config.version@ == "1.0.0"@,
            config.enable_batch,
            config.max_batch_size == 100,
            config.bind_host@ == "127.0.0.1"@,
            config.bind_port == 3000,
    {
        McpServerConfig {
            name: "MCP Server".to_owned(),
            version: "1.0.0".to_owned(),
            enable_batch: true,
            max_batch_size: 100,
            bind_host: "127.0.0.1".to_owned(),
            bind_port: 3000,
        }
    }
}

impl Clone for McpServerConfig {
    fn clone(&self) -> (copy: Self)
        ensures
            copy == *self,
    {
        McpServerConfig {
            name: self.name.clone(),
            version: self.version.clone(),
            enable_batch: self.enable_batch,
            max_batch_size: self.max_batch_size,
            bind_host: self.bind_host.clone(),
            bind_port: self.bind_port,
        }
    }
}

/// What a server reports of its health.
#[derive(Debug)]
pub struct ServerHealth {
    pub healthy: bool,
    pub status: String,
    pub uptime_seconds: u64,
    pub active_connections: usize,
}

impl Default for ServerHealth {
    fn default() -> (health: Self)
        ensures
            health.healthy,
            health.status@ == "healthy"@,
            health.uptime_seconds == 0,
            health.active_connections == 0,
    {
        ServerHealth {
            healthy: true,
            status: "healthy".to_owned(),
            uptime_seconds: 0,
            active_connections: 0,
        }
    }
}

impl Clone for ServerHealth {
    fn clone(&self) -> (copy: Self)
        ensures
            copy == *self,
    {
        ServerHealth {
            healthy: self.healthy,
            status: self.status.clone(),
            uptime_seconds: self.uptime_seconds,
            active_connections: self.active_connections,
        }
    }
}

} // verus!
