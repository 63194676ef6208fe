//! Operator-facing configuration values.
//!
//! These are the plain settings the surrounding binary reads from its
//! configuration sources and hands to the library: how to reach the root
//! database, which administrative user performs setup work, and how output
//! should be rendered. Loading them (files, secret stores) is the binary's
//! business; choosing among them is decided here.

use vstd::prelude::*;

use crate::ErrorKind;

verus! {

/// How command results are rendered.
#[derive(Clone, Copy, Debug, PartialEq, Eq, Structural)]
pub enum OutputFormat {
    /// Human-readable tables and messages.
    Human,
    /// Machine-readable JSON.
    Json,
}

/// The administrative database user that performs setup work.
#[derive(Debug)]
pub struct CliDatabaseSetupUserConfig {
    pub username: String,
    pub password: String,
}

impl Clone for CliDatabaseSetupUserConfig {
    fn clone(&self) -> (res: Self)
        ensures
            res == *self,
    {
        CliDatabaseSetupUserConfig {
            username: self.username.clone(),
            password: self.password.clone(),
        }
    }
}

/// How to reach the root database: host, port, and where the credentials
/// come from — inline, or from a named secret.
#[derive(Debug)]
pub struct CliDatabaseConfiguration {
    pub host: String,
    pub port: u16,
    pub setup_user: Option<CliDatabaseSetupUserConfig>,
    pub setup_user_secret_name: Option<String>,
    pub root_secret_name: String,
}

impl Clone for CliDatabaseConfiguration {
    fn clone(&self) -> (res: Self)
        ensures
            res == *self,
    {
        let setup_user = match &self.setup_user {
            Some(u) => Some(u.clone()),
            None => None,
        };
        let setup_user_secret_name = match &self.setup_user_secret_name {
            Some(n) => Some(n.clone()),
            None => None,
        };
        CliDatabaseConfiguration {
            host: self.host.clone(),
            port: self.port,
            setup_user,
            setup_user_secret_name,
            root_secret_name: self.root_secret_name.clone(),
        }
    }
}

/// A database connection source: the configured endpoint plus the resolved
/// administrative credentials.
#[derive(Debug)]
pub struct CliDatabaseProvider {
    pub config: CliDatabaseConfiguration,
    pub username: String,
    pub password: String,
}

/// Resolves the database provider from the configuration and, when the
/// configuration points at a secret, the user fetched from it.
///
/// An inline setup user wins; otherwise the fetched secret user is taken;
/// with neither, resolution fails with `ValidationError`.
pub fn resolve_database_provider(
    config: &CliDatabaseConfiguration,
    secret_user: Option<CliDatabaseSetupUserConfig>,
) -> (r: Result<CliDatabaseProvider, ErrorKind>)
    ensures
        match config.setup_user {
            Some(u) => r matches Ok(p) && p.username == u.username && p.password == u.password
                && p.config == *config,
            None => match secret_user {
                Some(u) => r matches Ok(p) && p.username == u.username && p.password == u.password
                    && p.config == *config,
                None => r matches Err(e) && e == ErrorKind::ValidationError,
            },
        },
{
    match &config.setup_user {
        Some(user) => Ok(CliDatabaseProvider {
            config: config.clone(),
            username: user.username.clone(),
            password: user.password.clone(),
        }),
        None => match secret_user {
            Some(user) => Ok(CliDatabaseProvider {
                config: config.clone(),
                username: user.username,
                password: user.password,
            }),
            None => Err(ErrorKind::ValidationError),
        },
    }
}

} // verus!
