//! Tenant identity records.
//!
//! A tenant is an isolated workspace with its own database, search index,
//! storage bucket scope, and database credential. The registry owns the
//! authoritative record; everything else borrows a copy for the duration of
//! one operation.

use vstd::prelude::*;

verus! {

/// Unique, immutable tenant identifier (a 128-bit id).
#[derive(Clone, Copy, Debug, PartialEq, Eq, Structural)]
pub struct TenantId {
    pub value: u128,
}

/// How the tenant's database access is authenticated.
///
/// Exactly one of the two modes is in force at any time: either a stored
/// secret, referenced by name, or an identity-based role. The enum makes the
/// mutual exclusion structural.
#[derive(Debug)]
pub enum CredentialMode {
    /// Database credentials live in the secret store under this name.
    Secret { secret_name: String },
    /// Database access is granted through an identity-based role.
    Iam { principal: String },
}

impl Clone for CredentialMode {
    fn clone(&self) -> (res: Self)
        ensures
            res == *self,
    {
        match self {
            CredentialMode::Secret { secret_name } => CredentialMode::Secret {
                secret_name: secret_name.clone(),
            },
            CredentialMode::Iam { principal } => CredentialMode::Iam {
                principal: principal.clone(),
            },
        }
    }
}

/// A tenant's identity record as held in the registry.
#[derive(Debug)]
pub struct Tenant {
    /// Unique within its environment; immutable.
    pub id: TenantId,
    /// Human-readable tenant name.
    pub name: String,
    /// Logical deployment partition the tenant lives in.
    pub env: String,
    /// Name of the tenant's relational database.
    pub db_name: String,
    /// The credential granting access to that database.
    pub credential: CredentialMode,
    /// Name of the tenant's storage bucket scope.
    pub s3_name: String,
    /// Name of the tenant's search index.
    pub os_index_name: String,
    /// Optional event queue the tenant publishes to.
    pub event_queue_url: Option<String>,
}

impl Clone for Tenant {
    fn clone(&self) -> (res: Self)
        ensures
            res == *self,
    {
        let event_queue_url = match &self.event_queue_url {
            Some(url) => Some(url.clone()),
            None => None,
        };
        Tenant {
            id: self.id,
            name: self.name.clone(),
            env: self.env.clone(),
            db_name: self.db_name.clone(),
            credential: self.credential.clone(),
            s3_name: self.s3_name.clone(),
            os_index_name: self.os_index_name.clone(),
            event_queue_url,
        }
    }
}

impl Tenant {
    /// A well-formed record carries a non-empty name and environment.
    pub open spec fn wf(self) -> bool {
        &&& self.name@.len() > 0
        &&& self.env@.len() > 0
    }

    /// Whether this record is keyed by the given environment and id.
    pub open spec fn has_key(self, env: Seq<char>, id: TenantId) -> bool {
        self.env@ == env && self.id == id
    }

    /// Compares this record's key against the given environment and id.
    pub fn matches_key(&self, env: &String, id: TenantId) -> (r: bool)
        ensures
            r == self.has_key(env@, id),
    {
        self.env.eq(env) && self.id.value == id.value
    }
}

} // verus!
