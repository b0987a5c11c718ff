//! Errors and the messages they are shown as.

use crate::text::{decimal, decimal_text};
use vstd::prelude::*;
use vstd::string::*;

verus! {

/// Errors in loading or combining configuration.
#[derive(Debug)]
pub enum ConfigError {
    ReadFile { path: String, source: String },
    Parse { path: String, source: String },
    MissingEnvVar { var: String, context: String },
    NameMismatch { filename: String, config_name: String },
    Serialize(String),
    WriteFile { path: String, source: String },
    DeleteFile { path: String, source: String },
    /// A volume that the repository declares has no host path on the server.
    VolumeMissingHostPath { mount_path: String },
    /// The routes of server and repository do not fit together.
    Merge(String),
    Internal(String),
}

impl ConfigError {
    /// The message.
    pub open spec fn text(self) -> Seq<char> {
        match self {
            ConfigError::ReadFile { path, source } => "failed to read "@ + path@ + ": "@ + source@,
            ConfigError::Parse { path, source } => "failed to parse "@ + path@ + ": "@ + source@,
            ConfigError::MissingEnvVar { var, context } => "missing environment variable $"@ + var@
                + " in "@ + context@,
            ConfigError::NameMismatch { filename, config_name } => "app name mismatch: filename '"@
                + filename@ + "' but config says '"@ + config_name@ + "'"@,
            ConfigError::Serialize(e) => "failed to serialize config: "@ + e@,
            ConfigError::WriteFile { path, source } => "failed to write "@ + path@ + ": "@ + source@,
            ConfigError::DeleteFile { path, source } => "failed to delete "@ + path@ + ": "@ + source@,
            ConfigError::VolumeMissingHostPath { mount_path } => "volume mount '"@ + mount_path@
                + "' declared in repo config has no corresponding host_path in server config"@,
            ConfigError::Merge(e) => "merge error: "@ + e@,
            ConfigError::Internal(e) => "internal error: "@ + e@,
        }
    }

    /// The message.
    pub fn message(&self) -> (r: String)
        ensures
            r@ == self.text(),
    {
        match self {
            ConfigError::ReadFile { path, source } => "failed to read ".to_owned().concat(
                path.as_str(),
            ).concat(": ").concat(source.as_str()),
            ConfigError::Parse { path, source } => "failed to parse ".to_owned().concat(
                path.as_str(),
            ).concat(": ").concat(source.as_str()),
            ConfigError::MissingEnvVar { var, context } => "missing environment variable $".to_owned().concat(
                var.as_str(),
            ).concat(" in ").concat(context.as_str()),
            ConfigError::NameMismatch {
                filename,
                config_name,
            } => "app name mismatch: filename '".to_owned().concat(filename.as_str()).concat(
                "' but config says '",
            ).concat(config_name.as_str()).concat("'"),
            ConfigError::Serialize(e) => "failed to serialize config: ".to_owned().concat(e.as_str()),
            ConfigError::WriteFile { path, source } => "failed to write ".to_owned().concat(
                path.as_str(),
            ).concat(": ").concat(source.as_str()),
            ConfigError::DeleteFile { path, source } => "failed to delete ".to_owned().concat(
                path.as_str(),
            ).concat(": ").concat(source.as_str()),
            ConfigError::VolumeMissingHostPath { mount_path } => "volume mount '".to_owned().concat(
                mount_path.as_str(),
            ).concat("' declared in repo config has no corresponding host_path in server config"),
            ConfigError::Merge(e) => "merge error: ".to_owned().concat(e.as_str()),
            ConfigError::Internal(e) => "internal error: ".to_owned().concat(e.as_str()),
        }
    }
}

/// Ways in which a health check fails.
#[derive(Debug)]
pub enum HealthError {
    /// No attempt ever got a response.
    Unhealthy { retries: u32, url: String },
    /// Some attempt got a response, and none an accepted one.
    UnexpectedStatus { expected: String, actual: u16, url: String, attempts: u32 },
}

impl HealthError {
    /// The message.
    pub open spec fn text(self) -> Seq<char> {
        match self {
            HealthError::Unhealthy { retries, url } => "unhealthy after "@ + decimal(retries as nat)
                + " attempts at "@ + url@,
            HealthError::UnexpectedStatus { expected, actual, url, attempts } =>
                "health check failed: expected "@ + expected@ + ", got "@ + decimal(actual as nat) + " at "@
                + url@ + " after "@ + decimal(attempts as nat) + " attempts"@,
        }
    }

    /// The message.
    pub fn message(&self) -> (r: String)
        ensures
            r@ == self.text(),
    {
        match self {
            HealthError::Unhealthy { retries, url } => "unhealthy after ".to_owned().concat(
                decimal_text(*retries as u64).as_str(),
            ).concat(" attempts at ").concat(url.as_str()),
            HealthError::UnexpectedStatus {
                expected,
                actual,
                url,
                attempts,
            } => "health check failed: expected ".to_owned().concat(expected.as_str()).concat(
                ", got ",
            ).concat(decimal_text(*actual as u64).as_str()).concat(" at ").concat(url.as_str()).concat(
                " after ",
            ).concat(decimal_text(*attempts as u64).as_str()).concat(" attempts"),
        }
    }
}

/// Errors in talking to the reverse proxy.
#[derive(Debug)]
pub enum CaddyError {
    Http(String),
    BootstrapFailed(String),
    RouteUpdateFailed(String),
    Unreachable { url: String, source: String },
    TlsConfigFailed(String),
    /// A TLS policy that is not ours covers the subject already.
    TlsPolicyConflict { subject: String, policy_id: String },
    /// Another server of the proxy holds the listener already.
    ListenerConflict { server: String, listener: String },
}

impl CaddyError {
    /// The message.
    pub open spec fn text(self) -> Seq<char> {
        match self {
            CaddyError::Http(e) => "caddy HTTP error: "@ + e@,
            CaddyError::BootstrapFailed(e) => "caddy bootstrap failed: "@ + e@,
            CaddyError::RouteUpdateFailed(e) => "caddy route update failed: "@ + e@,
            CaddyError::Unreachable { url, source } => "caddy not reachable at "@ + url@ + ": "@ + source@,
            CaddyError::TlsConfigFailed(e) => "caddy TLS configuration failed: "@ + e@,
            CaddyError::TlsPolicyConflict { subject, policy_id } => "TLS policy conflict on subject '"@
                + subject@
                + "': an unowned Caddy TLS automation policy already covers it (expected Slip-owned @id '"@
                + policy_id@
                + "'). Slip will not adopt or duplicate it. Either remove the foreign policy from Caddy (DELETE /config/apps/tls/automation/policies/<N>) or tag it with the expected @id so Slip can manage it."@,
            CaddyError::ListenerConflict { server, listener } => "Caddy server '"@ + server@
                + "' (from your Caddyfile) already claims "@ + listener@ + ". slip owns "@ + listener@
                + " via its 'slip' server. Remove site blocks from the Caddyfile, use [deploy] for the webhook and 'slip services expose' / static routes for other hosts."@,
        }
    }

    /// The message.
    pub fn message(&self) -> (r: String)
        ensures
            r@ == self.text(),
    {
        match self {
            CaddyError::Http(e) => "caddy HTTP error: ".to_owned().concat(e.as_str()),
            CaddyError::BootstrapFailed(e) => "caddy bootstrap failed: ".to_owned().concat(e.as_str()),
            CaddyError::RouteUpdateFailed(e) => "caddy route update failed: ".to_owned().concat(e.as_str()),
            CaddyError::Unreachable { url, source } => "caddy not reachable at ".to_owned().concat(
                url.as_str(),
            ).concat(": ").concat(source.as_str()),
            CaddyError::TlsConfigFailed(e) => "caddy TLS configuration failed: ".to_owned().concat(
                e.as_str(),
            ),
            CaddyError::TlsPolicyConflict {
                subject,
                policy_id,
            } => "TLS policy conflict on subject '".to_owned().concat(subject.as_str()).concat(
                "': an unowned Caddy TLS automation policy already covers it (expected Slip-owned @id '",
            ).concat(policy_id.as_str()).concat(
                "'). Slip will not adopt or duplicate it. Either remove the foreign policy from Caddy (DELETE /config/apps/tls/automation/policies/<N>) or tag it with the expected @id so Slip can manage it.",
            ),
            CaddyError::ListenerConflict { server, listener } => "Caddy server '".to_owned().concat(
                server.as_str(),
            ).concat("' (from your Caddyfile) already claims ").concat(listener.as_str()).concat(
                ". slip owns ",
            ).concat(listener.as_str()).concat(
                " via its 'slip' server. Remove site blocks from the Caddyfile, use [deploy] for the webhook and 'slip services expose' / static routes for other hosts.",
            ),
        }
    }
}

/// Errors of the Docker daemon.
#[derive(Debug)]
pub enum DockerError {
    Api(String),
    PullFailed(String),
    NoPortAssigned,
    ContainerNotRunning(String),
}

impl DockerError {
    /// The message.
    pub open spec fn text(self) -> Seq<char> {
        match self {
            DockerError::Api(e) => "docker API error: "@ + e@,
            DockerError::PullFailed(e) => "image pull failed: "@ + e@,
            DockerError::NoPortAssigned => "no host port assigned to container"@,
            DockerError::ContainerNotRunning(id) => "container "@ + id@ + " is not running after start"@,
        }
    }

    /// The message.
    pub fn message(&self) -> (r: String)
        ensures
            r@ == self.text(),
    {
        match self {
            DockerError::Api(e) => "docker API error: ".to_owned().concat(e.as_str()),
            DockerError::PullFailed(e) => "image pull failed: ".to_owned().concat(e.as_str()),
            DockerError::NoPortAssigned => "no host port assigned to container".to_owned(),
            DockerError::ContainerNotRunning(id) => "container ".to_owned().concat(id.as_str()).concat(
                " is not running after start",
            ),
        }
    }
}

/// Errors of whatever runtime holds the containers.
#[derive(Debug)]
pub enum RuntimeError {
    Connection(String),
    PullFailed(String),
    ContainerError(String),
    NoPortAssigned,
    ContainerNotRunning(String),
    NetworkError(String),
    Unsupported(String),
    ExecFailed(String),
}

impl RuntimeError {
    /// The message.
    pub open spec fn text(self) -> Seq<char> {
        match self {
            RuntimeError::Connection(e) => "runtime connection error: "@ + e@,
            RuntimeError::PullFailed(e) => "image pull failed: "@ + e@,
            RuntimeError::ContainerError(e) => "container operation failed: "@ + e@,
            RuntimeError::NoPortAssigned => "no host port assigned"@,
            RuntimeError::ContainerNotRunning(id) => "container "@ + id@ + " is not running"@,
            RuntimeError::NetworkError(e) => "network error: "@ + e@,
            RuntimeError::Unsupported(e) => "operation not supported by this runtime: "@ + e@,
            RuntimeError::ExecFailed(e) => "exec in container failed: "@ + e@,
        }
    }

    /// The message.
    pub fn message(&self) -> (r: String)
        ensures
            r@ == self.text(),
    {
        match self {
            RuntimeError::Connection(e) => "runtime connection error: ".to_owned().concat(e.as_str()),
            RuntimeError::PullFailed(e) => "image pull failed: ".to_owned().concat(e.as_str()),
            RuntimeError::ContainerError(e) => "container operation failed: ".to_owned().concat(
                e.as_str(),
            ),
            RuntimeError::NoPortAssigned => "no host port assigned".to_owned(),
            RuntimeError::ContainerNotRunning(id) => "container ".to_owned().concat(id.as_str()).concat(
                " is not running",
            ),
            RuntimeError::NetworkError(e) => "network error: ".to_owned().concat(e.as_str()),
            RuntimeError::Unsupported(e) => "operation not supported by this runtime: ".to_owned().concat(
                e.as_str(),
            ),
            RuntimeError::ExecFailed(e) => "exec in container failed: ".to_owned().concat(e.as_str()),
        }
    }
}

impl From<DockerError> for RuntimeError {
    fn from(e: DockerError) -> (r: RuntimeError) {
        match e {
            DockerError::Api(e) => RuntimeError::ContainerError(e),
            DockerError::PullFailed(msg) => RuntimeError::PullFailed(msg),
            DockerError::NoPortAssigned => RuntimeError::NoPortAssigned,
            DockerError::ContainerNotRunning(id) => RuntimeError::ContainerNotRunning(id),
        }
    }
}

impl vstd::std_specs::convert::FromSpecImpl<DockerError> for RuntimeError {
    open spec fn obeys_from_spec() -> bool {
        true
    }

    open spec fn from_spec(e: DockerError) -> RuntimeError {
        match e {
            DockerError::Api(e) => RuntimeError::ContainerError(e),
            DockerError::PullFailed(msg) => RuntimeError::PullFailed(msg),
            DockerError::NoPortAssigned => RuntimeError::NoPortAssigned,
            DockerError::ContainerNotRunning(id) => RuntimeError::ContainerNotRunning(id),
        }
    }
}

} // verus!
