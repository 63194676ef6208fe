//! The tenant provisioner.
//!
//! Creating a tenant is a saga of individually retryable steps — create the
//! database and bring it to the full migration history, create the search
//! index, create the storage bucket scope, store or rotate the database
//! credential — with a single commit point at the end: inserting the
//! registry record. A tenant exists if and only if its record exists; when
//! a step fails, provisioning aborts, reports which resources were already
//! created, and leaves cleanup or retry to the operator.

use vstd::prelude::*;

use vstd::string::StringExecFns;

use crate::registry::{contains_key, TenantRegistry};
use crate::tenant::{CredentialMode, Tenant, TenantId};
use crate::ErrorKind;

verus! {

/// What a new tenant should look like: its identity, environment, chosen
/// credential mode, and optional event queue.
pub struct CreateTenantConfig {
    pub id: TenantId,
    pub name: String,
    pub env: String,
    pub credential: CredentialMode,
    pub event_queue_url: Option<String>,
}

/// The name of the tenant's database, derived from its environment and
/// name.
pub open spec fn spec_database_name(env: Seq<char>, name: Seq<char>) -> Seq<char> {
    "docbox-"@ + env + "-"@ + name
}

/// The name of the tenant's storage bucket scope.
pub open spec fn spec_bucket_name(env: Seq<char>, name: Seq<char>) -> Seq<char> {
    spec_database_name(env, name) + "-files"@
}

/// The name of the tenant's search index.
pub open spec fn spec_index_name(env: Seq<char>, name: Seq<char>) -> Seq<char> {
    spec_database_name(env, name) + "-index"@
}

/// Derives the database name for an environment and tenant name.
pub fn derive_database_name(env: &String, name: &String) -> (r: String)
    ensures
        r@ == spec_database_name(env@, name@),
{
    let r = String::from_str("docbox-").concat(env.as_str()).concat("-").concat(name.as_str());
    proof {
        assert(r@ =~= spec_database_name(env@, name@));
    }
    r
}

/// Derives the storage bucket name for an environment and tenant name.
pub fn derive_bucket_name(env: &String, name: &String) -> (r: String)
    ensures
        r@ == spec_bucket_name(env@, name@),
{
    let r = derive_database_name(env, name).concat("-files");
    proof {
        assert(r@ =~= spec_bucket_name(env@, name@));
    }
    r
}

/// Derives the search index name for an environment and tenant name.
pub fn derive_index_name(env: &String, name: &String) -> (r: String)
    ensures
        r@ == spec_index_name(env@, name@),
{
    let r = derive_database_name(env, name).concat("-index");
    proof {
        assert(r@ =~= spec_index_name(env@, name@));
    }
    r
}

/// Checks a tenant specification against the registry.
///
/// Fails with `ValidationError` exactly when the name or environment is
/// empty, and otherwise with `DuplicateTenant` exactly when a tenant with
/// the same `(environment, id)` key already exists.
pub fn validate_create(config: &CreateTenantConfig, registry: &TenantRegistry) -> (r: Result<
    (),
    ErrorKind,
>)
    ensures
        r is Ok <==> config.name@.len() > 0 && config.env@.len() > 0 && !contains_key(
            registry.tenants@,
            config.env@,
            config.id,
        ),
        r matches Err(e) ==> {
            ||| (e == ErrorKind::ValidationError && (config.name@.len() == 0 || config.env@.len()
                == 0))
            ||| (e == ErrorKind::DuplicateTenant && contains_key(
                registry.tenants@,
                config.env@,
                config.id,
            ))
        },
{
    if config.name.as_str().is_empty() || config.env.as_str().is_empty() {
        return Err(ErrorKind::ValidationError);
    }
    match registry.get(&config.env, config.id) {
        Some(_) => Err(ErrorKind::DuplicateTenant),
        None => Ok(()),
    }
}

/// Builds the tenant record a specification provisions: the configured
/// identity and credential, with derived resource names.
pub fn build_tenant(config: &CreateTenantConfig) -> (t: Tenant)
    requires
        config.name@.len() > 0,
        config.env@.len() > 0,
    ensures
        t.id == config.id,
        t.name@ == config.name@,
        t.env@ == config.env@,
        t.db_name@ == spec_database_name(config.env@, config.name@),
        t.s3_name@ == spec_bucket_name(config.env@, config.name@),
        t.os_index_name@ == spec_index_name(config.env@, config.name@),
        t.credential == config.credential,
        t.event_queue_url == config.event_queue_url,
        t.wf(),
{
    let event_queue_url = match &config.event_queue_url {
        Some(url) => Some(url.clone()),
        None => None,
    };
    Tenant {
        id: config.id,
        name: config.name.clone(),
        env: config.env.clone(),
        db_name: derive_database_name(&config.env, &config.name),
        credential: config.credential.clone(),
        s3_name: derive_bucket_name(&config.env, &config.name),
        os_index_name: derive_index_name(&config.env, &config.name),
        event_queue_url,
    }
}

/// One resource-creating step of provisioning, in the order the saga runs
/// them.
#[derive(Clone, Copy, Debug, PartialEq, Eq, Structural)]
pub enum ProvisionStep {
    /// Create the tenant's database and apply the full migration history.
    CreateDatabase,
    /// Create the tenant's search index.
    CreateSearchIndex,
    /// Create the tenant's storage bucket scope.
    CreateStorageBucket,
    /// Store the database credential, or rotate it to an identity role.
    StoreCredential,
}

/// The order the provisioning steps run in.
pub open spec fn provision_order() -> Seq<ProvisionStep> {
    seq![
        ProvisionStep::CreateDatabase,
        ProvisionStep::CreateSearchIndex,
        ProvisionStep::CreateStorageBucket,
        ProvisionStep::StoreCredential,
    ]
}

/// A provisioning run, driven one step at a time: the caller performs each
/// resource creation and reports its result. Only after every step
/// succeeds may the record be committed to the registry.
pub struct ProvisionFlow {
    pub tenant: Tenant,
    pub next: usize,
    pub failed: Option<(ProvisionStep, ErrorKind)>,
}

impl ProvisionFlow {
    /// The cursor stays within the step order and the record to commit is
    /// well-formed; a recorded failure names the step that failed.
    pub open spec fn wf(self) -> bool {
        &&& self.tenant.wf()
        &&& self.next as int <= provision_order().len()
        &&& (self.failed matches Some(f) ==> (self.next as int) < provision_order().len() && f.0
            == provision_order()[self.next as int])
    }

    /// The saga is over: every step ran, or one failed.
    pub open spec fn done(self) -> bool {
        self.failed is Some || self.next as int == provision_order().len()
    }

    /// Every resource step was acknowledged as succeeded; only then may the
    /// record be committed.
    pub open spec fn ready_to_commit(self) -> bool {
        self.failed is None && self.next as int == provision_order().len()
    }

    /// Starts provisioning for a validated specification. An invalid or
    /// duplicate specification is rejected here, before any resource is
    /// created.
    pub fn new(config: &CreateTenantConfig, registry: &TenantRegistry) -> (r: Result<
        ProvisionFlow,
        ErrorKind,
    >)
        ensures
            r matches Ok(flow) ==> {
                &&& flow.wf()
                &&& flow.next == 0
                &&& flow.failed is None
                &&& flow.tenant.id == config.id
                &&& flow.tenant.name@ == config.name@
                &&& flow.tenant.env@ == config.env@
                &&& flow.tenant.db_name@ == spec_database_name(config.env@, config.name@)
                &&& flow.tenant.s3_name@ == spec_bucket_name(config.env@, config.name@)
                &&& flow.tenant.os_index_name@ == spec_index_name(config.env@, config.name@)
                &&& flow.tenant.credential == config.credential
                &&& !contains_key(registry.tenants@, config.env@, config.id)
            },
            r matches Err(e) ==> {
                ||| (e == ErrorKind::ValidationError && (config.name@.len() == 0
                    || config.env@.len() == 0))
                ||| (e == ErrorKind::DuplicateTenant && contains_key(
                    registry.tenants@,
                    config.env@,
                    config.id,
                ))
            },
    {
        if let Err(e) = validate_create(config, registry) {
            return Err(e);
        }
        let tenant = build_tenant(config);
        Ok(ProvisionFlow { tenant, next: 0, failed: None })
    }

    /// The resource step to perform next, or nothing once the saga is over.
    pub fn next_step(&self) -> (r: Option<ProvisionStep>)
        requires
            self.wf(),
        ensures
            r is Some <==> !self.done(),
            r matches Some(s) ==> s == provision_order()[self.next as int],
    {
        match &self.failed {
            Some(_) => None,
            None => {
                if self.next == 0 {
                    Some(ProvisionStep::CreateDatabase)
                } else if self.next == 1 {
                    Some(ProvisionStep::CreateSearchIndex)
                } else if self.next == 2 {
                    Some(ProvisionStep::CreateStorageBucket)
                } else if self.next == 3 {
                    Some(ProvisionStep::StoreCredential)
                } else {
                    None
                }
            },
        }
    }

    /// Records the backend's result for the current step: on success the
    /// saga advances; on failure it aborts where it stands, with no
    /// automatic rollback of the resources already created.
    pub fn on_step_result(&mut self, result: Result<(), ErrorKind>)
        requires
            old(self).wf(),
            !old(self).done(),
        ensures
            final(self).wf(),
            final(self).tenant == old(self).tenant,
            match result {
                Ok(()) => final(self).next == old(self).next + 1 && final(self).failed is None,
                Err(e) => final(self).next == old(self).next && (final(self).failed matches Some(f)
                    && f.0 == provision_order()[old(self).next as int] && f.1 == e),
            },
    {
        match result {
            Ok(()) => {
                self.next = self.next + 1;
            },
            Err(e) => {
                let step = match self.next_step() {
                    Some(s) => s,
                    None => {
                        proof {
                            assert(false);
                        }
                        ProvisionStep::CreateDatabase
                    },
                };
                self.failed = Some((step, e));
            },
        }
    }

    /// The steps whose resources exist already: on an aborted run this is
    /// what the operator must clean up or retry into.
    pub fn completed_steps(&self) -> (r: Vec<ProvisionStep>)
        requires
            self.wf(),
        ensures
            r@ == provision_order().take(self.next as int),
    {
        let mut out: Vec<ProvisionStep> = Vec::new();
        if self.next >= 1 {
            out.push(ProvisionStep::CreateDatabase);
        }
        if self.next >= 2 {
            out.push(ProvisionStep::CreateSearchIndex);
        }
        if self.next >= 3 {
            out.push(ProvisionStep::CreateStorageBucket);
        }
        if self.next >= 4 {
            out.push(ProvisionStep::StoreCredential);
        }
        proof {
            assert(out@ =~= provision_order().take(self.next as int));
        }
        out
    }

    /// The commit point: inserts the tenant record into the registry, after
    /// which — and only after which — the tenant exists.
    ///
    /// Callable only once every resource step has succeeded. Fails with
    /// `DuplicateTenant`, leaving the registry unchanged, exactly when the
    /// key was taken in the meantime.
    pub fn commit(self, registry: &mut TenantRegistry) -> (r: Result<Tenant, ErrorKind>)
        requires
            old(registry).wf(),
            self.wf(),
            self.ready_to_commit(),
        ensures
            final(registry).wf(),
            match r {
                Ok(t) => {
                    &&& t == self.tenant
                    &&& !contains_key(old(registry).tenants@, self.tenant.env@, self.tenant.id)
                    &&& final(registry).tenants@ == old(registry).tenants@.push(self.tenant)
                },
                Err(e) => {
                    &&& e == ErrorKind::DuplicateTenant
                    &&& contains_key(old(registry).tenants@, self.tenant.env@, self.tenant.id)
                    &&& final(registry).tenants@ == old(registry).tenants@
                },
            },
    {
        let record = self.tenant.clone();
        match registry.create(record) {
            Ok(()) => Ok(self.tenant),
            Err(e) => Err(e),
        }
    }
}

} // verus!
