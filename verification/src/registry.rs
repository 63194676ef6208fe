//! The tenant registry: CRUD over tenant metadata records.
//!
//! The registry is the authoritative store of tenant records, keyed by
//! `(environment, id)`. A tenant exists if and only if its registry record
//! exists; provisioning inserts the record last (the commit point) and
//! decommissioning removes it last.

use vstd::prelude::*;

use crate::tenant::{Tenant, TenantId};
use crate::ErrorKind;

verus! {

/// Whether some record in `s` is keyed by `(env, id)`.
pub open spec fn contains_key(s: Seq<Tenant>, env: Seq<char>, id: TenantId) -> bool {
    exists|i: int| 0 <= i < s.len() && s[i].has_key(env, id)
}

/// The index of the record keyed by `(env, id)`; meaningful only when
/// `contains_key` holds and keys are unique.
pub open spec fn key_index(s: Seq<Tenant>, env: Seq<char>, id: TenantId) -> int {
    choose|i: int| 0 <= i < s.len() && s[i].has_key(env, id)
}

/// The records of `s` whose environment matches the filter (all of them when
/// the filter is absent), in their original order.
pub open spec fn filter_env(s: Seq<Tenant>, env: Option<Seq<char>>) -> Seq<Tenant>
    decreases s.len(),
{
    if s.len() == 0 {
        Seq::empty()
    } else {
        let prefix = filter_env(s.drop_last(), env);
        if env_matches(s.last(), env) {
            prefix.push(s.last())
        } else {
            prefix
        }
    }
}

/// Whether a record passes an optional environment filter.
pub open spec fn env_matches(t: Tenant, env: Option<Seq<char>>) -> bool {
    match env {
        Some(e) => t.env@ == e,
        None => true,
    }
}

/// The authoritative collection of tenant records.
pub struct TenantRegistry {
    pub tenants: Vec<Tenant>,
}

impl TenantRegistry {
    /// Keys are unique: no two records share an environment and id.
    pub open spec fn wf(self) -> bool {
        forall|i: int, j: int|
            0 <= i < j < self.tenants@.len() ==> !(#[trigger] self.tenants@[i]).has_key(
                (#[trigger] self.tenants@[j]).env@,
                self.tenants@[j].id,
            )
    }

    /// Creates an empty registry.
    pub fn new() -> (r: TenantRegistry)
        ensures
            r.tenants@.len() == 0,
            r.wf(),
    {
        TenantRegistry { tenants: Vec::new() }
    }

    /// Looks up the position of the record keyed by `(env, id)`.
    fn find_index(&self, env: &String, id: TenantId) -> (r: Option<usize>)
        ensures
            match r {
                Some(i) => i < self.tenants@.len() && self.tenants@[i as int].has_key(env@, id),
                None => !contains_key(self.tenants@, env@, id),
            },
    {
        let n = self.tenants.len();
        let mut i: usize = 0;
        while i < n
            invariant
                i <= n,
                n == self.tenants@.len(),
                forall|j: int| 0 <= j < i ==> !(#[trigger] self.tenants@[j]).has_key(env@, id),
            decreases n - i,
        {
            if self.tenants[i].matches_key(env, id) {
                return Some(i);
            }
            i = i + 1;
        }
        None
    }

    /// Inserts a new tenant record.
    ///
    /// Fails with `DuplicateTenant`, leaving the registry unchanged, exactly
    /// when a record with the same `(environment, id)` key already exists.
    pub fn create(&mut self, tenant: Tenant) -> (r: Result<(), ErrorKind>)
        requires
            old(self).wf(),
            tenant.wf(),
        ensures
            final(self).wf(),
            match r {
                Ok(()) => {
                    &&& !contains_key(old(self).tenants@, tenant.env@, tenant.id)
                    &&& final(self).tenants@ == old(self).tenants@.push(tenant)
                },
                Err(e) => {
                    &&& e == ErrorKind::DuplicateTenant
                    &&& contains_key(old(self).tenants@, tenant.env@, tenant.id)
                    &&& final(self).tenants@ == old(self).tenants@
                },
            },
    {
        match self.find_index(&tenant.env, tenant.id) {
            Some(_) => Err(ErrorKind::DuplicateTenant),
            None => {
                let ghost before = self.tenants@;
                self.tenants.push(tenant);
                proof {
                    assert forall|i: int, j: int| 0 <= i < j < self.tenants@.len() implies !(
                    #[trigger] self.tenants@[i]).has_key(
                        (#[trigger] self.tenants@[j]).env@,
                        self.tenants@[j].id,
                    ) by {
                        if j == before.len() {
                            assert(self.tenants@[i] == before[i]);
                        }
                    }
                }
                Ok(())
            },
        }
    }

    /// Fetches a copy of the record keyed by `(env, id)`, if it exists.
    pub fn get(&self, env: &String, id: TenantId) -> (r: Option<Tenant>)
        ensures
            r is Some <==> contains_key(self.tenants@, env@, id),
            match r {
                Some(t) => self.tenants@.contains(t) && t.has_key(env@, id),
                None => true,
            },
            self.wf() ==> match r {
                Some(t) => t == self.tenants@[key_index(self.tenants@, env@, id)],
                None => true,
            },
    {
        match self.find_index(env, id) {
            Some(i) => {
                let t = self.tenants[i].clone();
                proof {
                    assert(self.tenants@.contains(self.tenants@[i as int]));
                    if self.wf() {
                        let s = self.tenants@;
                        let k = key_index(s, env@, id);
                        assert(contains_key(s, env@, id));
                        assert(0 <= k < s.len() && s[k].has_key(env@, id));
                        if k != i as int {
                            if k < i as int {
                                assert(!s[k].has_key(s[i as int].env@, s[i as int].id));
                            } else {
                                assert(!s[i as int].has_key(s[k].env@, s[k].id));
                            }
                            assert(false);
                        }
                    }
                }
                Some(t)
            },
            None => None,
        }
    }

    /// Lists the records matching an optional environment filter, in
    /// registration order.
    pub fn list(&self, env_filter: Option<&String>) -> (r: Vec<Tenant>)
        ensures
            match env_filter {
                Some(e) => r@ == filter_env(self.tenants@, Some(e@)),
                None => r@ == filter_env(self.tenants@, None::<Seq<char>>),
            },
    {
        let ghost genv: Option<Seq<char>> = match env_filter {
            Some(e) => Some(e@),
            None => None,
        };
        let mut out: Vec<Tenant> = Vec::new();
        let n = self.tenants.len();
        let mut i: usize = 0;
        proof {
            assert(self.tenants@.take(0) =~= Seq::<Tenant>::empty());
        }
        while i < n
            invariant
                i <= n,
                n == self.tenants@.len(),
                genv == (match env_filter {
                    Some(e) => Some(e@),
                    None => None::<Seq<char>>,
                }),
                out@ == filter_env(self.tenants@.take(i as int), genv),
            decreases n - i,
        {
            let keep = match env_filter {
                Some(e) => self.tenants[i].env.eq(e),
                None => true,
            };
            if keep {
                out.push(self.tenants[i].clone());
            }
            proof {
                let s1 = self.tenants@.take(i as int + 1);
                assert(s1.len() == i + 1);
                assert(s1.drop_last() =~= self.tenants@.take(i as int));
                assert(s1.last() == self.tenants@[i as int]);
                assert(filter_env(s1, genv) == (if env_matches(s1.last(), genv) {
                    filter_env(s1.drop_last(), genv).push(s1.last())
                } else {
                    filter_env(s1.drop_last(), genv)
                }));
                assert(keep == env_matches(self.tenants@[i as int], genv));
            }
            i = i + 1;
        }
        proof {
            assert(self.tenants@.take(n as int) =~= self.tenants@);
        }
        out
    }

    /// Replaces the credential mode of the record keyed by `(env, id)`.
    ///
    /// Fails with `NotFound`, leaving the registry unchanged, exactly when no
    /// such record exists. No other record and no other field is touched.
    pub fn update_credential_mode(
        &mut self,
        env: &String,
        id: TenantId,
        credential: crate::tenant::CredentialMode,
    ) -> (r: Result<(), ErrorKind>)
        requires
            old(self).wf(),
        ensures
            final(self).wf(),
            match r {
                Ok(()) => {
                    &&& contains_key(old(self).tenants@, env@, id)
                    &&& final(self).tenants@ == old(self).tenants@.update(
                        key_index(old(self).tenants@, env@, id),
                        (Tenant {
                            credential: credential,
                            ..old(self).tenants@[key_index(old(self).tenants@, env@, id)]
                        }),
                    )
                },
                Err(e) => {
                    &&& e == ErrorKind::NotFound
                    &&& !contains_key(old(self).tenants@, env@, id)
                    &&& final(self).tenants@ == old(self).tenants@
                },
            },
    {
        match self.find_index(env, id) {
            Some(i) => {
                let ghost before = self.tenants@;
                let ghost k = key_index(before, env@, id);
                proof {
                    assert(contains_key(before, env@, id));
                    assert(0 <= k < before.len() && before[k].has_key(env@, id));
                    if k != i as int {
                        if k < i as int {
                            assert(!before[k].has_key(before[i as int].env@, before[i as int].id));
                        } else {
                            assert(!before[i as int].has_key(before[k].env@, before[k].id));
                        }
                        assert(false);
                    }
                }
                let updated = Tenant { credential, ..self.tenants[i].clone() };
                self.tenants[i] = updated;
                proof {
                    assert(self.tenants@ =~= before.update(
                        k,
                        (Tenant { credential: credential, ..before[k] }),
                    ));
                    assert forall|a: int, b: int| 0 <= a < b < self.tenants@.len() implies !(
                    #[trigger] self.tenants@[a]).has_key(
                        (#[trigger] self.tenants@[b]).env@,
                        self.tenants@[b].id,
                    ) by {
                        assert(before[a].has_key(before[b].env@, before[b].id)
                            == self.tenants@[a].has_key(self.tenants@[b].env@, self.tenants@[b].id));
                    }
                }
                Ok(())
            },
            None => Err(ErrorKind::NotFound),
        }
    }

    /// Removes and returns the record keyed by `(env, id)`.
    ///
    /// This is the final, irreversible step of decommissioning; callers run
    /// it only after every requested resource deletion has succeeded. Fails
    /// with `NotFound`, leaving the registry unchanged, exactly when no such
    /// record exists.
    pub fn remove(&mut self, env: &String, id: TenantId) -> (r: Result<Tenant, ErrorKind>)
        requires
            old(self).wf(),
        ensures
            final(self).wf(),
            match r {
                Ok(t) => {
                    &&& contains_key(old(self).tenants@, env@, id)
                    &&& t == old(self).tenants@[key_index(old(self).tenants@, env@, id)]
                    &&& final(self).tenants@ == old(self).tenants@.remove(
                        key_index(old(self).tenants@, env@, id),
                    )
                },
                Err(e) => {
                    &&& e == ErrorKind::NotFound
                    &&& !contains_key(old(self).tenants@, env@, id)
                    &&& final(self).tenants@ == old(self).tenants@
                },
            },
    {
        match self.find_index(env, id) {
            Some(i) => {
                let ghost before = self.tenants@;
                let ghost k = key_index(before, env@, id);
                proof {
                    assert(contains_key(before, env@, id));
                    assert(0 <= k < before.len() && before[k].has_key(env@, id));
                    if k != i as int {
                        if k < i as int {
                            assert(!before[k].has_key(before[i as int].env@, before[i as int].id));
                        } else {
                            assert(!before[i as int].has_key(before[k].env@, before[k].id));
                        }
                        assert(false);
                    }
                }
                let t = self.tenants.remove(i);
                proof {
                    assert forall|a: int, b: int| 0 <= a < b < self.tenants@.len() implies !(
                    #[trigger] self.tenants@[a]).has_key(
                        (#[trigger] self.tenants@[b]).env@,
                        self.tenants@[b].id,
                    ) by {
                        let a0 = if a < k { a } else { a + 1 };
                        let b0 = if b < k { b } else { b + 1 };
                        assert(self.tenants@[a] == before[a0]);
                        assert(self.tenants@[b] == before[b0]);
                    }
                }
                Ok(t)
            },
            None => Err(ErrorKind::NotFound),
        }
    }
}

} // verus!

