//! The tenant decommissioner.
//!
//! Deleting a tenant is an ordered, option-gated cascade. Pooled
//! connections and cached references are invalidated first, always, because
//! a database drop fails while sessions are open. The gated deletions
//! follow — database, search index, storage scope, secret — and the
//! registry record is removed last, only after every requested step
//! succeeded, so a partial run leaves the record in place and the operation
//! safely retryable.
//!
//! A contradictory option set is rejected up front with `InvalidOptions`,
//! before any resource is touched.

use vstd::prelude::*;

use crate::ErrorKind;

verus! {

/// Which of a tenant's resources are actually deleted, and how.
///
/// Deleting the database, the search index, or the secret permanently all
/// require `delete_contents`; asking otherwise is a configuration error.
#[derive(Clone, Copy, Debug, PartialEq, Eq, Structural)]
pub struct DeleteTenantOptions {
    /// Contents may be destroyed; without it the cascade only detaches.
    pub delete_contents: bool,
    /// Drop the tenant's database.
    pub delete_database: bool,
    /// Delete the tenant's search index.
    pub delete_search: bool,
    /// Delete the tenant's storage bucket scope.
    pub delete_storage: bool,
    /// Purge the secret immediately instead of leaving it in a recoverable
    /// grace window.
    pub permanently_delete_secret: bool,
}

/// One step of the decommission cascade, in the order the cascade runs
/// them.
#[derive(Clone, Copy, Debug, PartialEq, Eq, Structural)]
pub enum DecommissionAction {
    /// Close pooled connections and invalidate cached references; always
    /// first, and unconditional.
    InvalidateCache,
    /// Drop the tenant's database.
    DropDatabase,
    /// Delete the tenant's search index.
    DeleteSearchIndex,
    /// Delete the storage bucket scope; contents only go when requested.
    DeleteStorage { delete_contents: bool },
    /// Delete the secret, immediately or into the grace window.
    DeleteSecret { immediate: bool },
    /// Remove the tenant's registry record; always last.
    RemoveRegistryRow,
}

/// A coherent option set: destructive steps demand `delete_contents`.
pub open spec fn options_valid(o: DeleteTenantOptions) -> bool {
    &&& o.delete_database ==> o.delete_contents
    &&& o.delete_search ==> o.delete_contents
    &&& o.permanently_delete_secret ==> o.delete_contents
}

/// The middle of the cascade: the gated deletions between the cache
/// invalidation and the registry removal.
pub open spec fn gated_steps(o: DeleteTenantOptions) -> Seq<DecommissionAction> {
    (if o.delete_database {
        seq![DecommissionAction::DropDatabase]
    } else {
        Seq::empty()
    }) + (if o.delete_search {
        seq![DecommissionAction::DeleteSearchIndex]
    } else {
        Seq::empty()
    }) + (if o.delete_storage {
        seq![DecommissionAction::DeleteStorage { delete_contents: o.delete_contents }]
    } else {
        Seq::empty()
    }) + (if o.delete_contents {
        seq![DecommissionAction::DeleteSecret { immediate: o.permanently_delete_secret }]
    } else {
        Seq::empty()
    })
}

/// The full cascade for an option set: invalidate first, gated deletions in
/// order, registry removal last.
pub open spec fn plan_spec(o: DeleteTenantOptions) -> Seq<DecommissionAction> {
    seq![DecommissionAction::InvalidateCache] + gated_steps(o) + seq![
        DecommissionAction::RemoveRegistryRow,
    ]
}

/// The cascade always begins with the cache invalidation, ends with the
/// registry removal, and removes the registry record nowhere else.
pub proof fn lemma_plan_shape(o: DeleteTenantOptions)
    ensures
        plan_spec(o).len() >= 2,
        plan_spec(o).first() == DecommissionAction::InvalidateCache,
        plan_spec(o).last() == DecommissionAction::RemoveRegistryRow,
        forall|i: int|
            0 <= i < plan_spec(o).len() - 1 ==> plan_spec(o)[i]
                != DecommissionAction::RemoveRegistryRow,
        forall|i: int|
            0 < i < plan_spec(o).len() ==> plan_spec(o)[i] != DecommissionAction::InvalidateCache,
{
    let mid = gated_steps(o);
    assert forall|i: int|
        0 <= i < mid.len() implies mid[i] != DecommissionAction::RemoveRegistryRow && mid[i]
        != DecommissionAction::InvalidateCache by {}
}

/// Checks an option set, failing with `InvalidOptions` exactly when a
/// destructive step is requested without `delete_contents`.
pub fn validate_options(options: &DeleteTenantOptions) -> (r: Result<(), ErrorKind>)
    ensures
        r is Ok <==> options_valid(*options),
        r matches Err(e) ==> e == ErrorKind::InvalidOptions,
{
    if options.delete_database && !options.delete_contents {
        Err(ErrorKind::InvalidOptions)
    } else if options.delete_search && !options.delete_contents {
        Err(ErrorKind::InvalidOptions)
    } else if options.permanently_delete_secret && !options.delete_contents {
        Err(ErrorKind::InvalidOptions)
    } else {
        Ok(())
    }
}

/// Builds the cascade for a valid option set; an invalid one is rejected
/// with `InvalidOptions` and no step is planned.
pub fn plan_decommission(options: &DeleteTenantOptions) -> (r: Result<
    Vec<DecommissionAction>,
    ErrorKind,
>)
    ensures
        r matches Ok(plan) ==> options_valid(*options) && plan@ == plan_spec(*options),
        r matches Err(e) ==> e == ErrorKind::InvalidOptions && !options_valid(*options),
{
    if let Err(e) = validate_options(options) {
        return Err(e);
    }
    let mut plan: Vec<DecommissionAction> = Vec::new();
    plan.push(DecommissionAction::InvalidateCache);
    if options.delete_database {
        plan.push(DecommissionAction::DropDatabase);
    }
    if options.delete_search {
        plan.push(DecommissionAction::DeleteSearchIndex);
    }
    if options.delete_storage {
        plan.push(DecommissionAction::DeleteStorage { delete_contents: options.delete_contents });
    }
    if options.delete_contents {
        plan.push(DecommissionAction::DeleteSecret { immediate: options.permanently_delete_secret });
    }
    plan.push(DecommissionAction::RemoveRegistryRow);
    proof {
        assert(plan@ =~= plan_spec(*options));
    }
    Ok(plan)
}

/// A decommission run, driven one step at a time: the caller performs the
/// current action against the real backend and reports its result. Any
/// failure halts the cascade where it stands — later steps, including the
/// registry removal, are never reached — and the run can be retried from
/// scratch because every provider step tolerates "already absent".
pub struct DecommissionFlow {
    pub plan: Vec<DecommissionAction>,
    pub next: usize,
    pub failed: Option<(DecommissionAction, ErrorKind)>,
    pub options: Ghost<DeleteTenantOptions>,
}

impl DecommissionFlow {
    /// The plan is the cascade of a valid option set and the cursor stays
    /// within it; a recorded failure names the step that failed.
    pub open spec fn wf(self) -> bool {
        &&& options_valid(self.options@)
        &&& self.plan@ == plan_spec(self.options@)
        &&& self.next as int <= self.plan@.len()
        &&& (self.failed matches Some(f) ==> (self.next as int) < self.plan@.len() && f.0
            == self.plan@[self.next as int])
    }

    /// The run is over: every step ran, or one failed.
    pub open spec fn done(self) -> bool {
        self.failed is Some || self.next as int == self.plan@.len()
    }

    /// Every planned step was acknowledged as succeeded; only then is the
    /// registry record gone.
    pub open spec fn completed(self) -> bool {
        self.failed is None && self.next as int == self.plan@.len()
    }

    /// Starts a decommission run. An invalid option set is rejected here,
    /// before any action is handed out: no resource is touched.
    pub fn new(options: &DeleteTenantOptions) -> (r: Result<DecommissionFlow, ErrorKind>)
        ensures
            r matches Ok(flow) ==> {
                &&& options_valid(*options)
                &&& flow.wf()
                &&& flow.options@ == *options
                &&& flow.next == 0
                &&& flow.failed is None
            },
            r matches Err(e) ==> e == ErrorKind::InvalidOptions && !options_valid(*options),
    {
        match plan_decommission(options) {
            Ok(plan) => Ok(
                DecommissionFlow { plan, next: 0, failed: None, options: Ghost(*options) },
            ),
            Err(e) => Err(e),
        }
    }

    /// The step to perform next, or nothing once the run is over.
    pub fn next_action(&self) -> (r: Option<DecommissionAction>)
        requires
            self.wf(),
        ensures
            r is Some <==> !self.done(),
            r matches Some(a) ==> a == self.plan@[self.next as int],
    {
        match &self.failed {
            Some(_) => None,
            None => {
                if self.next < self.plan.len() {
                    Some(self.plan[self.next])
                } else {
                    None
                }
            },
        }
    }

    /// Records the backend's result for the current step: on success the
    /// cascade advances; on failure it halts where it stands, leaving the
    /// registry record in place.
    pub fn on_action_result(&mut self, result: Result<(), ErrorKind>)
        requires
            old(self).wf(),
            !old(self).done(),
        ensures
            final(self).wf(),
            final(self).plan == old(self).plan,
            final(self).options == old(self).options,
            match result {
                Ok(()) => final(self).next == old(self).next + 1 && final(self).failed is None,
                Err(e) => final(self).next == old(self).next && (final(self).failed matches Some(f)
                    && f.0 == old(self).plan@[old(self).next as int] && f.1 == e),
            },
    {
        let n = self.plan.len();
        assert(self.next < n);
        match result {
            Ok(()) => {
                self.next = self.next + 1;
            },
            Err(e) => {
                self.failed = Some((self.plan[self.next], e));
            },
        }
    }

    /// The registry record is only ever removed as the very last step:
    /// whenever the cascade hands out `RemoveRegistryRow`, every other
    /// planned step — the cache invalidation and all requested deletions —
    /// has already been acknowledged as succeeded.
    pub proof fn lemma_row_removal_last(self)
        requires
            self.wf(),
            !self.done(),
            self.plan@[self.next as int] == DecommissionAction::RemoveRegistryRow,
        ensures
            self.next as int == self.plan@.len() - 1,
            self.failed is None,
    {
        lemma_plan_shape(self.options@);
    }

    /// The cascade's first action is always the cache invalidation,
    /// whatever the options.
    pub proof fn lemma_cache_invalidation_first(self)
        requires
            self.wf(),
            self.next == 0,
            !self.done(),
        ensures
            self.plan@[0] == DecommissionAction::InvalidateCache,
    {
        lemma_plan_shape(self.options@);
    }
}

} // verus!
