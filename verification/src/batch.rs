//! The batch migration engine.
//!
//! A batch run applies pending migrations across a set of candidate tenants
//! with per-tenant fault isolation: each tenant's outcome is recorded
//! independently. With `skip_failed` a failing tenant is recorded and the
//! run continues; without it the run aborts on the first failure, returning
//! the outcome accumulated so far together with the aborting error, and no
//! tenant ordered after the failure is attempted.

use vstd::prelude::*;

use crate::registry::{filter_env, TenantRegistry};
use crate::tenant::{Tenant, TenantId};
use crate::ErrorKind;

verus! {

/// What a batch migration run is asked to cover: an optional environment,
/// an optional single tenant within it, whether failing tenants are skipped
/// or abort the run, and an optional migration name to stop at.
pub struct MigrateTenantsConfig {
    pub env: Option<String>,
    pub tenant_id: Option<TenantId>,
    pub skip_failed: bool,
    pub target_migration_name: Option<String>,
}

/// The records of `s` whose id matches the filter (all of them when the
/// filter is absent), in their original order.
pub open spec fn filter_id(s: Seq<Tenant>, id: Option<TenantId>) -> Seq<Tenant>
    decreases s.len(),
{
    if s.len() == 0 {
        Seq::empty()
    } else {
        let prefix = filter_id(s.drop_last(), id);
        if id_matches(s.last(), id) {
            prefix.push(s.last())
        } else {
            prefix
        }
    }
}

/// Whether a record passes an optional tenant-id filter.
pub open spec fn id_matches(t: Tenant, id: Option<TenantId>) -> bool {
    match id {
        Some(i) => t.id == i,
        None => true,
    }
}

/// Resolves the candidate set of a batch run: the registry's tenants in the
/// configured environment, narrowed to the configured tenant when one is
/// given, in registration order.
pub fn select_candidates(registry: &TenantRegistry, config: &MigrateTenantsConfig) -> (r: Vec<
    Tenant,
>)
    ensures
        ({
            let by_env = match config.env {
                Some(e) => filter_env(registry.tenants@, Some(e@)),
                None => filter_env(registry.tenants@, None::<Seq<char>>),
            };
            r@ == filter_id(by_env, config.tenant_id)
        }),
{
    let env: Option<&String> = match &config.env {
        Some(e) => Some(e),
        None => None,
    };
    let tenant_id = config.tenant_id;
    let listed = registry.list(env);
    let ghost by_env = listed@;
    let mut out: Vec<Tenant> = Vec::new();
    let n = listed.len();
    let mut i: usize = 0;
    proof {
        assert(listed@.take(0) =~= Seq::<Tenant>::empty());
    }
    while i < n
        invariant
            i <= n,
            n == listed@.len(),
            out@ == filter_id(listed@.take(i as int), tenant_id),
        decreases n - i,
    {
        let keep = match tenant_id {
            Some(id) => listed[i].id.value == id.value,
            None => true,
        };
        if keep {
            out.push(listed[i].clone());
        }
        proof {
            let s1 = listed@.take(i as int + 1);
            assert(s1.drop_last() =~= listed@.take(i as int));
            assert(s1.last() == listed@[i as int]);
            assert(keep == id_matches(listed@[i as int], tenant_id));
        }
        i = i + 1;
    }
    proof {
        assert(listed@.take(n as int) =~= listed@);
    }
    out
}

/// What one tenant's migration attempt produced: the migrations that ran,
/// in order, or the error that stopped it.
pub type TenantRunResult = Result<Vec<String>, ErrorKind>;

/// A successfully migrated tenant and the migrations that ran for it (empty
/// when none were pending).
#[derive(Debug)]
pub struct AppliedTenant {
    pub tenant_id: TenantId,
    pub name: String,
    pub env: String,
    pub migrations: Vec<String>,
}

/// A tenant whose migration attempt failed.
#[derive(Debug)]
pub struct FailedTenant {
    pub tenant_id: TenantId,
    pub name: String,
    pub env: String,
}

/// The abstract value of an `AppliedTenant`.
pub struct AppliedView {
    pub tenant_id: TenantId,
    pub name: Seq<char>,
    pub env: Seq<char>,
    pub migrations: Seq<Seq<char>>,
}

/// The abstract value of a `FailedTenant`.
pub struct FailedView {
    pub tenant_id: TenantId,
    pub name: Seq<char>,
    pub env: Seq<char>,
}

impl View for AppliedTenant {
    type V = AppliedView;

    open spec fn view(&self) -> AppliedView {
        AppliedView {
            tenant_id: self.tenant_id,
            name: self.name@,
            env: self.env@,
            migrations: self.migrations@.map_values(|m: String| m@),
        }
    }
}

impl View for FailedTenant {
    type V = FailedView;

    open spec fn view(&self) -> FailedView {
        FailedView { tenant_id: self.tenant_id, name: self.name@, env: self.env@ }
    }
}

/// The result of a batch run: two disjoint lists. Every candidate tenant
/// lands in exactly one of them, unless the run aborted early.
#[derive(Debug)]
pub struct BatchOutcome {
    pub applied_tenants: Vec<AppliedTenant>,
    pub failed_tenants: Vec<(ErrorKind, FailedTenant)>,
}

/// A batch run that aborted on its first failure: the outcome accumulated
/// before the failing tenant, plus the aborting error. The failing tenant
/// and everything after it appear in neither outcome list.
#[derive(Debug)]
pub struct AbortedBatch {
    pub outcome: BatchOutcome,
    pub error: ErrorKind,
    pub tenant: FailedTenant,
}

/// The abstract values of an applied list.
pub open spec fn applied_views(v: Seq<AppliedTenant>) -> Seq<AppliedView> {
    v.map_values(|a: AppliedTenant| a@)
}

/// The abstract values of a failed list.
pub open spec fn failed_views(v: Seq<(ErrorKind, FailedTenant)>) -> Seq<(ErrorKind, FailedView)> {
    v.map_values(|p: (ErrorKind, FailedTenant)| (p.0, p.1@))
}

/// The applied entry a successful run of `ran` produces for tenant `t`.
pub open spec fn applied_entry(t: Tenant, ran: Seq<String>) -> AppliedView {
    AppliedView {
        tenant_id: t.id,
        name: t.name@,
        env: t.env@,
        migrations: ran.map_values(|m: String| m@),
    }
}

/// The failed entry tenant `t` produces.
pub open spec fn failed_entry(t: Tenant) -> FailedView {
    FailedView { tenant_id: t.id, name: t.name@, env: t.env@ }
}

/// The applied list after processing the first `n` candidates.
pub open spec fn applied_upto(
    candidates: Seq<Tenant>,
    results: Seq<TenantRunResult>,
    n: int,
) -> Seq<AppliedView>
    decreases n,
{
    if n <= 0 {
        Seq::empty()
    } else {
        let prefix = applied_upto(candidates, results, n - 1);
        match results[n - 1] {
            Ok(ran) => prefix.push(applied_entry(candidates[n - 1], ran@)),
            Err(_) => prefix,
        }
    }
}

/// The failed list after processing the first `n` candidates.
pub open spec fn failed_upto(
    candidates: Seq<Tenant>,
    results: Seq<TenantRunResult>,
    n: int,
) -> Seq<(ErrorKind, FailedView)>
    decreases n,
{
    if n <= 0 {
        Seq::empty()
    } else {
        let prefix = failed_upto(candidates, results, n - 1);
        match results[n - 1] {
            Ok(_) => prefix,
            Err(e) => prefix.push((e, failed_entry(candidates[n - 1]))),
        }
    }
}

/// Whether any attempt in `results` failed.
pub open spec fn has_failure(results: Seq<TenantRunResult>) -> bool {
    exists|i: int| 0 <= i < results.len() && results[i] is Err
}

/// The position of the first failure.
pub open spec fn first_failure(results: Seq<TenantRunResult>) -> int
    decreases results.len(),
{
    if results.len() == 0 {
        0
    } else if results[0] is Err {
        0
    } else {
        1 + first_failure(results.skip(1))
    }
}

/// The first failure comes after a failure-free prefix and is itself a
/// failure; without failures it sits past the end.
pub proof fn lemma_first_failure(results: Seq<TenantRunResult>)
    ensures
        has_failure(results) ==> {
            &&& 0 <= first_failure(results) < results.len()
            &&& results[first_failure(results)] is Err
            &&& forall|j: int| 0 <= j < first_failure(results) ==> results[j] is Ok
        },
        !has_failure(results) ==> first_failure(results) == results.len(),
    decreases results.len(),
{
    if results.len() == 0 {
    } else if results[0] is Err {
    } else {
        let tail = results.skip(1);
        lemma_first_failure(tail);
        if has_failure(results) {
            let w = choose|i: int| 0 <= i < results.len() && results[i] is Err;
            assert(w != 0);
            assert(tail[w - 1] == results[w]);
            assert(has_failure(tail));
        }
        if has_failure(tail) {
            let ft = first_failure(tail);
            assert(tail[ft] == results[ft + 1]);
            assert(results[1 + ft] is Err);
            assert(has_failure(results));
            assert forall|j: int| 0 <= j < 1 + ft implies results[j] is Ok by {
                if j > 0 {
                    assert(tail[j - 1] == results[j]);
                }
            }
        } else {
            assert(!has_failure(results));
            assert(first_failure(tail) == tail.len());
        }
    }
}

/// The tenant ids of an applied list.
pub open spec fn applied_ids(applied: Seq<AppliedView>) -> Seq<TenantId> {
    applied.map_values(|a: AppliedView| a.tenant_id)
}

/// The tenant ids of a failed list.
pub open spec fn failed_ids(failed: Seq<(ErrorKind, FailedView)>) -> Seq<TenantId> {
    failed.map_values(|f: (ErrorKind, FailedView)| f.1.tenant_id)
}

/// The tenant ids of a candidate list.
pub open spec fn candidate_ids(candidates: Seq<Tenant>) -> Seq<TenantId> {
    candidates.map_values(|t: Tenant| t.id)
}

/// With `skip_failed`, a batch partitions its candidates: after processing
/// the first `n`, every one of them appears in exactly one of the two
/// outcome lists — the two lists' ids together are exactly the candidates'
/// ids, and their lengths sum to `n`.
pub proof fn lemma_skip_failed_partitions(
    candidates: Seq<Tenant>,
    results: Seq<TenantRunResult>,
    n: int,
)
    requires
        0 <= n <= candidates.len(),
        n <= results.len(),
    ensures
        applied_upto(candidates, results, n).len() + failed_upto(candidates, results, n).len()
            == n,
        applied_ids(applied_upto(candidates, results, n)).to_multiset().add(
            failed_ids(failed_upto(candidates, results, n)).to_multiset(),
        ) =~= candidate_ids(candidates.take(n)).to_multiset(),
    decreases n,
{
    broadcast use vstd::seq_lib::group_to_multiset_ensures;
    broadcast use vstd::multiset::group_multiset_axioms;

    if n == 0 {
        assert(candidates.take(0) =~= Seq::<Tenant>::empty());
        assert(candidate_ids(Seq::<Tenant>::empty()) =~= Seq::<TenantId>::empty());
        assert(applied_upto(candidates, results, 0) =~= Seq::<AppliedView>::empty());
        assert(failed_upto(candidates, results, 0) =~= Seq::<(ErrorKind, FailedView)>::empty());
        assert(applied_ids(Seq::<AppliedView>::empty()) =~= Seq::<TenantId>::empty());
        assert(failed_ids(Seq::<(ErrorKind, FailedView)>::empty()) =~= Seq::<TenantId>::empty());
    } else {
        lemma_skip_failed_partitions(candidates, results, n - 1);
        let ap = applied_upto(candidates, results, n - 1);
        let fp = failed_upto(candidates, results, n - 1);
        let c = candidates[n - 1];
        assert(candidates.take(n) =~= candidates.take(n - 1).push(c));
        assert(candidate_ids(candidates.take(n)) =~= candidate_ids(candidates.take(n - 1)).push(
            c.id,
        ));
        match results[n - 1] {
            Ok(ran) => {
                let a = applied_entry(c, ran@);
                assert(applied_upto(candidates, results, n) == ap.push(a));
                assert(applied_ids(ap.push(a)) =~= applied_ids(ap).push(c.id));
            },
            Err(e) => {
                let f = (e, failed_entry(c));
                assert(failed_upto(candidates, results, n) == fp.push(f));
                assert(failed_ids(fp.push(f)) =~= failed_ids(fp).push(c.id));
            },
        }
    }
}

/// Without `skip_failed`, an aborted batch stops at its first failure: the
/// accumulated outcome holds exactly the tenants before the failing one, so
/// its two lists together are strictly smaller than the candidate set.
pub proof fn lemma_abort_stops_batch(candidates: Seq<Tenant>, results: Seq<TenantRunResult>)
    requires
        candidates.len() == results.len(),
        has_failure(results),
    ensures
        ({
            let k = first_failure(results);
            &&& applied_upto(candidates, results, k).len() == k
            &&& failed_upto(candidates, results, k).len() == 0
            &&& k < candidates.len()
        }),
{
    lemma_first_failure(results);
    let k = first_failure(results);
    lemma_all_ok_prefix(candidates, results, k);
}

/// Over a failure-free prefix, every candidate lands in the applied list.
proof fn lemma_all_ok_prefix(candidates: Seq<Tenant>, results: Seq<TenantRunResult>, n: int)
    requires
        0 <= n <= results.len(),
        forall|j: int| 0 <= j < n ==> results[j] is Ok,
    ensures
        applied_upto(candidates, results, n).len() == n,
        failed_upto(candidates, results, n).len() == 0,
    decreases n,
{
    if n > 0 {
        lemma_all_ok_prefix(candidates, results, n - 1);
    }
}

/// An aborted batch never reads past its first failure: any two result
/// sequences that agree up to and including the first failure produce the
/// same aborted outcome — tenants ordered after the failure are not
/// attempted.
pub proof fn lemma_abort_reads_prefix_only(
    candidates: Seq<Tenant>,
    results1: Seq<TenantRunResult>,
    results2: Seq<TenantRunResult>,
)
    requires
        results1.len() == results2.len(),
        has_failure(results1),
        results2.take(first_failure(results1) + 1) == results1.take(first_failure(results1) + 1),
    ensures
        has_failure(results2),
        first_failure(results2) == first_failure(results1),
        applied_upto(candidates, results2, first_failure(results1)) == applied_upto(
            candidates,
            results1,
            first_failure(results1),
        ),
        failed_upto(candidates, results2, first_failure(results1)) == failed_upto(
            candidates,
            results1,
            first_failure(results1),
        ),
{
    lemma_first_failure(results1);
    let k = first_failure(results1);
    assert forall|j: int| 0 <= j <= k implies results2[j] == results1[j] by {
        assert(results2.take(k + 1)[j] == results2[j]);
        assert(results1.take(k + 1)[j] == results1[j]);
    }
    assert(results2[k] is Err);
    assert(has_failure(results2));
    lemma_first_failure(results2);
    let k2 = first_failure(results2);
    if k2 < k {
        assert(results1[k2] is Ok);
        assert(false);
    }
    if k2 > k {
        assert(results2[k] is Ok);
        assert(false);
    }
    lemma_upto_reads_prefix(candidates, results1, results2, k);
}

/// The accumulated outcome over `n` candidates depends only on the first
/// `n` results.
proof fn lemma_upto_reads_prefix(
    candidates: Seq<Tenant>,
    results1: Seq<TenantRunResult>,
    results2: Seq<TenantRunResult>,
    n: int,
)
    requires
        0 <= n <= results1.len(),
        n <= results2.len(),
        forall|j: int| 0 <= j < n ==> results2[j] == results1[j],
    ensures
        applied_upto(candidates, results2, n) == applied_upto(candidates, results1, n),
        failed_upto(candidates, results2, n) == failed_upto(candidates, results1, n),
    decreases n,
{
    if n > 0 {
        lemma_upto_reads_prefix(candidates, results1, results2, n - 1);
    }
}

/// Copies a list of migration names.
fn clone_names(v: &Vec<String>) -> (r: Vec<String>)
    ensures
        r@ == v@,
{
    let n = v.len();
    let mut out: Vec<String> = Vec::new();
    let mut i: usize = 0;
    proof {
        assert(v@.take(0) =~= Seq::<String>::empty());
    }
    while i < n
        invariant
            i <= n,
            n == v@.len(),
            out@ == v@.take(i as int),
        decreases n - i,
    {
        out.push(v[i].clone());
        proof {
            assert(v@.take(i as int + 1) =~= v@.take(i as int).push(v@[i as int]));
        }
        i = i + 1;
    }
    proof {
        assert(v@.take(n as int) =~= v@);
    }
    out
}

/// Runs a batch over `candidates`, where `results[i]` is what attempting
/// tenant `candidates[i]` produces.
///
/// With `skip_failed`, every candidate is processed and lands in exactly one
/// outcome list. Without it, the run stops at the first failure: the
/// successful prefix is returned as the accumulated outcome together with
/// the aborting error, and no result past the failure is read.
pub fn run_batch(
    candidates: &Vec<Tenant>,
    results: &Vec<TenantRunResult>,
    skip_failed: bool,
) -> (r: Result<BatchOutcome, AbortedBatch>)
    requires
        candidates@.len() == results@.len(),
    ensures
        (skip_failed || !has_failure(results@)) ==> (r matches Ok(out)
            && applied_views(out.applied_tenants@) == applied_upto(
            candidates@,
            results@,
            candidates@.len() as int,
        ) && failed_views(out.failed_tenants@) == failed_upto(
            candidates@,
            results@,
            candidates@.len() as int,
        )),
        (!skip_failed && has_failure(results@)) ==> (r matches Err(ab) && {
            let k = first_failure(results@);
            &&& applied_views(ab.outcome.applied_tenants@) == applied_upto(candidates@, results@, k)
            &&& failed_views(ab.outcome.failed_tenants@) == failed_upto(candidates@, results@, k)
            &&& results@[k] matches Err(e) && ab.error == e
            &&& ab.tenant@ == failed_entry(candidates@[k])
        }),
{
    let n = candidates.len();
    let mut applied_tenants: Vec<AppliedTenant> = Vec::new();
    let mut failed_tenants: Vec<(ErrorKind, FailedTenant)> = Vec::new();
    let mut i: usize = 0;
    proof {
        lemma_first_failure(results@);
    }
    while i < n
        invariant
            i <= n,
            n == candidates@.len() == results@.len(),
            applied_views(applied_tenants@) == applied_upto(candidates@, results@, i as int),
            failed_views(failed_tenants@) == failed_upto(candidates@, results@, i as int),
            forall|j: int| 0 <= j < i ==> !skip_failed ==> results@[j] is Ok,
        decreases n - i,
    {
        let candidate = &candidates[i];
        let ghost before_applied = applied_tenants@;
        let ghost before_failed = failed_tenants@;
        match &results[i] {
            Ok(ran) => {
                let entry = AppliedTenant {
                    tenant_id: candidate.id,
                    name: candidate.name.clone(),
                    env: candidate.env.clone(),
                    migrations: clone_names(ran),
                };
                applied_tenants.push(entry);
                proof {
                    assert(results@[i as int] == Ok::<Vec<String>, ErrorKind>(*ran));
                    assert(applied_views(applied_tenants@) =~= applied_views(before_applied).push(
                        applied_entry(candidates@[i as int], ran@),
                    ));
                    assert(failed_views(failed_tenants@) == failed_upto(
                        candidates@,
                        results@,
                        i as int + 1,
                    ));
                }
            },
            Err(error) => {
                let entry = FailedTenant {
                    tenant_id: candidate.id,
                    name: candidate.name.clone(),
                    env: candidate.env.clone(),
                };
                if skip_failed {
                    proof {
                        assert(results@[i as int] == Err::<Vec<String>, ErrorKind>(*error));
                    }
                    failed_tenants.push((*error, entry));
                    proof {
                        assert(failed_views(failed_tenants@) =~= failed_views(before_failed).push(
                            (*error, failed_entry(candidates@[i as int])),
                        ));
                        assert(applied_views(applied_tenants@) == applied_upto(
                            candidates@,
                            results@,
                            i as int + 1,
                        ));
                    }
                } else {
                    proof {
                        lemma_first_failure(results@);
                        assert(results@[i as int] == Err::<Vec<String>, ErrorKind>(*error));
                        assert(results@[i as int] is Err);
                        assert(has_failure(results@));
                        assert(first_failure(results@) == i as int) by {
                            let k = first_failure(results@);
                            if k < i as int {
                                assert(results@[k] is Ok);
                            }
                            if k > i as int {
                                assert(results@[i as int] is Ok);
                            }
                        }
                    }
                    return Err(AbortedBatch {
                        outcome: BatchOutcome { applied_tenants, failed_tenants },
                        error: *error,
                        tenant: entry,
                    });
                }
            },
        }
        i = i + 1;
    }
    proof {
        if !skip_failed && has_failure(results@) {
            lemma_first_failure(results@);
            assert(results@[first_failure(results@)] is Ok);
            assert(false);
        }
    }
    Ok(BatchOutcome { applied_tenants, failed_tenants })
}

/// A batch run driven one tenant at a time.
///
/// The driver asks for the `current` tenant, attempts its migration against
/// the real backends, and `record`s what came back; the runner accumulates
/// the outcome under exactly the abort and isolation rules of `run_batch`.
/// The sequence of results seen so far is carried as ghost state so the
/// outcome lists are pinned to it.
pub struct BatchRunner {
    pub candidates: Vec<Tenant>,
    pub skip_failed: bool,
    pub next: usize,
    pub applied_tenants: Vec<AppliedTenant>,
    pub failed_tenants: Vec<(ErrorKind, FailedTenant)>,
    pub abort: Option<(ErrorKind, FailedTenant)>,
    pub seen: Ghost<Seq<TenantRunResult>>,
}

impl BatchRunner {
    /// The outcome lists reflect exactly the results seen so far; without
    /// `skip_failed`, every recorded result was a success (a failure halts
    /// the run instead of being recorded).
    pub open spec fn wf(self) -> bool {
        &&& self.seen@.len() == self.next as int
        &&& self.next as int <= self.candidates@.len()
        &&& applied_views(self.applied_tenants@) == applied_upto(
            self.candidates@,
            self.seen@,
            self.next as int,
        )
        &&& failed_views(self.failed_tenants@) == failed_upto(
            self.candidates@,
            self.seen@,
            self.next as int,
        )
        &&& (self.abort is Some ==> !self.skip_failed)
        &&& (!self.skip_failed ==> forall|j: int| 0 <= j < self.next ==> self.seen@[j] is Ok)
    }

    /// The run is over: every candidate was attempted, or it aborted.
    pub open spec fn done(self) -> bool {
        self.abort is Some || self.next as int == self.candidates@.len()
    }

    /// Starts a run over the given candidates.
    pub fn new(candidates: Vec<Tenant>, skip_failed: bool) -> (r: BatchRunner)
        ensures
            r.wf(),
            r.candidates == candidates,
            r.skip_failed == skip_failed,
            r.next == 0,
            r.seen@ == Seq::<TenantRunResult>::empty(),
            r.abort is None,
    {
        let r = BatchRunner {
            candidates,
            skip_failed,
            next: 0,
            applied_tenants: Vec::new(),
            failed_tenants: Vec::new(),
            abort: None,
            seen: Ghost(Seq::empty()),
        };
        proof {
            assert(applied_views(r.applied_tenants@) =~= Seq::<AppliedView>::empty());
            assert(failed_views(r.failed_tenants@) =~= Seq::<(ErrorKind, FailedView)>::empty());
        }
        r
    }

    /// The tenant to attempt next, or nothing once the run is over.
    pub fn current(&self) -> (r: Option<&Tenant>)
        requires
            self.wf(),
        ensures
            r is Some <==> !self.done(),
            r matches Some(t) ==> *t == self.candidates@[self.next as int],
    {
        match &self.abort {
            Some(_) => None,
            None => {
                assert(self.abort is None);
                if self.next < self.candidates.len() {
                    assert(!self.done());
                    let t = &self.candidates[self.next];
                    assert(*t == self.candidates@[self.next as int]);
                    Some(t)
                } else {
                    None
                }
            },
        }
    }

    /// Records what attempting the current tenant produced.
    ///
    /// A success, or any result under `skip_failed`, is folded into the
    /// outcome and the run advances. A failure without `skip_failed` halts
    /// the run: nothing more is recorded, and the error is kept as the
    /// aborting one.
    pub fn record(&mut self, result: TenantRunResult)
        requires
            old(self).wf(),
            !old(self).done(),
        ensures
            final(self).wf(),
            final(self).candidates == old(self).candidates,
            final(self).skip_failed == old(self).skip_failed,
            (result is Ok || old(self).skip_failed) ==> {
                &&& final(self).next == old(self).next + 1
                &&& final(self).seen@ == old(self).seen@.push(result)
                &&& final(self).abort == old(self).abort
            },
            (result is Err && !old(self).skip_failed) ==> {
                &&& final(self).next == old(self).next
                &&& final(self).seen@ == old(self).seen@
                &&& final(self).applied_tenants@ == old(self).applied_tenants@
                &&& final(self).failed_tenants@ == old(self).failed_tenants@
                &&& (final(self).abort matches Some(ab) && result matches Err(e) && ab.0 == e
                    && ab.1@ == failed_entry(old(self).candidates@[old(self).next as int]))
            },
    {
        let i = self.next;
        let n = self.candidates.len();
        assert(i < n);
        let candidate = &self.candidates[i];
        let ghost before_seen = self.seen@;
        let ghost before_applied = self.applied_tenants@;
        let ghost before_failed = self.failed_tenants@;
        match result {
            Ok(ran) => {
                let entry = AppliedTenant {
                    tenant_id: candidate.id,
                    name: candidate.name.clone(),
                    env: candidate.env.clone(),
                    migrations: ran,
                };
                proof {
                    self.seen@ = before_seen.push(Ok(entry.migrations));
                }
                self.applied_tenants.push(entry);
                self.next = i + 1;
                proof {
                    lemma_upto_reads_prefix(self.candidates@, before_seen, self.seen@, i as int);
                    assert(self.seen@[i as int] is Ok);
                    assert(applied_views(self.applied_tenants@) =~= applied_views(
                        before_applied,
                    ).push(
                        applied_entry(self.candidates@[i as int], self.seen@[i as int]->Ok_0@),
                    ));
                }
            },
            Err(error) => {
                let entry = FailedTenant {
                    tenant_id: candidate.id,
                    name: candidate.name.clone(),
                    env: candidate.env.clone(),
                };
                if self.skip_failed {
                    proof {
                        self.seen@ = before_seen.push(Err(error));
                    }
                    self.failed_tenants.push((error, entry));
                    self.next = i + 1;
                    proof {
                        lemma_upto_reads_prefix(
                            self.candidates@,
                            before_seen,
                            self.seen@,
                            i as int,
                        );
                        assert(self.seen@[i as int] is Err);
                        assert(failed_views(self.failed_tenants@) =~= failed_views(
                            before_failed,
                        ).push((error, failed_entry(self.candidates@[i as int]))));
                    }
                } else {
                    self.abort = Some((error, entry));
                }
            },
        }
    }

    /// Surrenders the run's result once it is over: the accumulated outcome,
    /// or the aborted outcome with its error.
    pub fn into_result(self) -> (r: Result<BatchOutcome, AbortedBatch>)
        requires
            self.wf(),
            self.done(),
        ensures
            match r {
                Ok(out) => {
                    &&& self.abort is None
                    &&& out.applied_tenants@ == self.applied_tenants@
                    &&& out.failed_tenants@ == self.failed_tenants@
                },
                Err(ab) => {
                    &&& (self.abort matches Some(a) && ab.error == a.0 && ab.tenant == a.1)
                    &&& ab.outcome.applied_tenants@ == self.applied_tenants@
                    &&& ab.outcome.failed_tenants@ == self.failed_tenants@
                },
            },
    {
        let outcome = BatchOutcome {
            applied_tenants: self.applied_tenants,
            failed_tenants: self.failed_tenants,
        };
        match self.abort {
            Some((error, tenant)) => Err(AbortedBatch { outcome, error, tenant }),
            None => Ok(outcome),
        }
    }
}

} // verus!
