//! Per-tenant migration planning.
//!
//! Migrations carry monotonically ordered names. A tenant's database records
//! which migrations have been applied; the pending set is every available
//! migration named after the last recorded one, up to an optional target,
//! applied in ascending name order. A migration already recorded as applied
//! is never reapplied.

use vstd::prelude::*;

use crate::order::{lex_le, lex_lt, lemma_lex_lt_transitive, lemma_lex_trichotomy, name_le, name_lt};

verus! {

/// The view of an optional migration name.
pub open spec fn opt_name(o: Option<&String>) -> Option<Seq<char>> {
    match o {
        Some(s) => Some(s@),
        None => None,
    }
}

/// The name of the last recorded migration, if any.
pub open spec fn last_name(applied: Seq<String>) -> Option<Seq<char>> {
    if applied.len() == 0 {
        None
    } else {
        Some(applied.last()@)
    }
}

/// Whether a migration named `m` is pending: named strictly after the last
/// recorded migration and not beyond the target, when either bound is given.
pub open spec fn migration_selected(
    m: Seq<char>,
    last: Option<Seq<char>>,
    target: Option<Seq<char>>,
) -> bool {
    &&& match last {
        Some(l) => lex_lt(l, m),
        None => true,
    }
    &&& match target {
        Some(t) => lex_le(m, t),
        None => true,
    }
}

/// The pending migrations among `avail`, in their original order.
pub open spec fn pending_of(
    avail: Seq<String>,
    last: Option<Seq<char>>,
    target: Option<Seq<char>>,
) -> Seq<String>
    decreases avail.len(),
{
    if avail.len() == 0 {
        Seq::empty()
    } else {
        let prefix = pending_of(avail.drop_last(), last, target);
        if migration_selected(avail.last()@, last, target) {
            prefix.push(avail.last())
        } else {
            prefix
        }
    }
}

/// Names in strictly ascending order.
pub open spec fn sorted_names(s: Seq<String>) -> bool {
    forall|i: int, j: int| 0 <= i < j < s.len() ==> lex_lt(#[trigger] s[i]@, #[trigger] s[j]@)
}

/// What the pending set contains: exactly the selected available migrations,
/// still in ascending order.
pub proof fn lemma_pending_props(
    avail: Seq<String>,
    last: Option<Seq<char>>,
    target: Option<Seq<char>>,
)
    requires
        sorted_names(avail),
    ensures
        sorted_names(pending_of(avail, last, target)),
        forall|i: int|
            0 <= i < pending_of(avail, last, target).len() ==> avail.contains(
                #[trigger] pending_of(avail, last, target)[i],
            ) && migration_selected(pending_of(avail, last, target)[i]@, last, target),
        forall|j: int|
            0 <= j < avail.len() && migration_selected((#[trigger] avail[j])@, last, target)
                ==> pending_of(avail, last, target).contains(avail[j]),
    decreases avail.len(),
{
    let pend = pending_of(avail, last, target);
    if avail.len() == 0 {
    } else {
        let d = avail.drop_last();
        let x = avail.last();
        assert(sorted_names(d)) by {
            assert forall|i: int, j: int| 0 <= i < j < d.len() implies lex_lt(
                #[trigger] d[i]@,
                #[trigger] d[j]@,
            ) by {
                assert(d[i] == avail[i]);
                assert(d[j] == avail[j]);
            }
        }
        lemma_pending_props(d, last, target);
        let dpend = pending_of(d, last, target);
        // every element of the prefix pending set comes before `x`
        assert forall|i: int| 0 <= i < dpend.len() implies lex_lt(#[trigger] dpend[i]@, x@) by {
            assert(d.contains(dpend[i]));
            let k = choose|k: int| 0 <= k < d.len() && d[k] == dpend[i];
            assert(avail[k] == d[k]);
            assert(lex_lt(avail[k]@, avail[avail.len() - 1]@));
        }
        if migration_selected(x@, last, target) {
            assert(pend == dpend.push(x));
            assert forall|i: int, j: int| 0 <= i < j < pend.len() implies lex_lt(
                #[trigger] pend[i]@,
                #[trigger] pend[j]@,
            ) by {
                if j < pend.len() - 1 {
                    assert(pend[i] == dpend[i] && pend[j] == dpend[j]);
                } else {
                    assert(pend[j] == x);
                    assert(pend[i] == dpend[i]);
                }
            }
            assert forall|i: int|
                0 <= i < pend.len() implies avail.contains(#[trigger] pend[i])
                && migration_selected(pend[i]@, last, target) by {
                if i < pend.len() - 1 {
                    assert(pend[i] == dpend[i]);
                    assert(d.contains(dpend[i]));
                    let k = choose|k: int| 0 <= k < d.len() && d[k] == dpend[i];
                    assert(avail[k] == pend[i]);
                } else {
                    assert(pend[i] == x);
                    assert(avail[avail.len() - 1] == x);
                }
            }
            assert forall|j: int|
                0 <= j < avail.len() && migration_selected(
                    (#[trigger] avail[j])@,
                    last,
                    target,
                ) implies pend.contains(avail[j]) by {
                if j < avail.len() - 1 {
                    assert(d[j] == avail[j]);
                    assert(dpend.contains(avail[j]));
                    let k = choose|k: int| 0 <= k < dpend.len() && dpend[k] == avail[j];
                    assert(pend[k] == avail[j]);
                } else {
                    assert(pend[pend.len() - 1] == x);
                }
            }
        } else {
            assert(pend == dpend);
            assert forall|i: int|
                0 <= i < pend.len() implies avail.contains(#[trigger] pend[i])
                && migration_selected(pend[i]@, last, target) by {
                assert(d.contains(pend[i]));
                let k = choose|k: int| 0 <= k < d.len() && d[k] == pend[i];
                assert(avail[k] == pend[i]);
            }
            assert forall|j: int|
                0 <= j < avail.len() && migration_selected(
                    (#[trigger] avail[j])@,
                    last,
                    target,
                ) implies pend.contains(avail[j]) by {
                if j < avail.len() - 1 {
                    assert(d[j] == avail[j]);
                }
            }
        }
    }
}

/// Migration runs are idempotent: after one run applies the pending set, a
/// second run over the same available migrations finds nothing pending.
pub proof fn lemma_migrate_idempotent(
    avail: Seq<String>,
    applied: Seq<String>,
    target: Option<Seq<char>>,
)
    requires
        sorted_names(avail),
    ensures
        pending_of(
            avail,
            last_name(applied + pending_of(avail, last_name(applied), target)),
            target,
        ) =~= Seq::<String>::empty(),
{
    let last = last_name(applied);
    let pend = pending_of(avail, last, target);
    let applied2 = applied + pend;
    let last2 = last_name(applied2);
    lemma_pending_props(avail, last, target);
    if pend.len() == 0 {
        assert(applied2 =~= applied);
        assert(pending_of(avail, last2, target) == pend);
    } else {
        let top = pend.last();
        assert(applied2.last() == top);
        assert(last2 == Some(top@));
        // nothing is selected on the second run
        assert forall|j: int|
            0 <= j < avail.len() implies !migration_selected(
                (#[trigger] avail[j])@,
                last2,
                target,
            ) by {
            let m = avail[j];
            if migration_selected(m@, last2, target) {
                // selected after `top` implies selected on the first run too
                assert(lex_lt(top@, m@));
                assert(pend[pend.len() - 1] == top);
                assert(migration_selected(top@, last, target));
                match last {
                    Some(l) => {
                        lemma_lex_lt_transitive(l, top@, m@);
                        assert(migration_selected(m@, last, target));
                    },
                    None => {
                        assert(migration_selected(m@, last, target));
                    },
                }
                assert(pend.contains(m));
                let k = choose|k: int| 0 <= k < pend.len() && pend[k] == m;
                // but every first-run pending name is at most `top`
                if k < pend.len() - 1 {
                    assert(lex_lt(pend[k]@, top@));
                    lemma_lex_lt_transitive(top@, m@, top@);
                    lemma_lex_trichotomy(top@, top@);
                } else {
                    lemma_lex_trichotomy(top@, m@);
                }
                assert(false);
            }
        }
        lemma_pending_empty(avail, last2, target);
    }
}

/// If nothing is selected, the pending set is empty.
proof fn lemma_pending_empty(
    avail: Seq<String>,
    last: Option<Seq<char>>,
    target: Option<Seq<char>>,
)
    requires
        forall|j: int|
            0 <= j < avail.len() ==> !migration_selected((#[trigger] avail[j])@, last, target),
    ensures
        pending_of(avail, last, target) =~= Seq::<String>::empty(),
    decreases avail.len(),
{
    if avail.len() == 0 {
    } else {
        let d = avail.drop_last();
        assert forall|j: int|
            0 <= j < d.len() implies !migration_selected((#[trigger] d[j])@, last, target) by {
            assert(d[j] == avail[j]);
        }
        lemma_pending_empty(d, last, target);
        assert(avail.last() == avail[avail.len() - 1]);
    }
}

/// A pending migration is never one already recorded as applied.
pub proof fn lemma_pending_not_reapplied(
    avail: Seq<String>,
    applied: Seq<String>,
    target: Option<Seq<char>>,
)
    requires
        sorted_names(avail),
        sorted_names(applied),
    ensures
        forall|i: int|
            0 <= i < pending_of(avail, last_name(applied), target).len() ==> !applied.contains(
                #[trigger] pending_of(avail, last_name(applied), target)[i],
            ),
{
    let last = last_name(applied);
    let pend = pending_of(avail, last, target);
    lemma_pending_props(avail, last, target);
    assert forall|i: int| 0 <= i < pend.len() implies !applied.contains(#[trigger] pend[i]) by {
        if applied.contains(pend[i]) {
            let k = choose|k: int| 0 <= k < applied.len() && applied[k] == pend[i];
            let l = applied.last()@;
            assert(migration_selected(pend[i]@, last, target));
            assert(lex_lt(l, pend[i]@));
            if k < applied.len() - 1 {
                assert(lex_lt(applied[k]@, l));
                lemma_lex_lt_transitive(l, applied[k]@, l);
                lemma_lex_trichotomy(l, l);
            } else {
                lemma_lex_trichotomy(l, pend[i]@);
            }
            assert(false);
        }
    }
}

/// Computes the migrations pending for one tenant: those named after the
/// last applied migration, capped at `target` when given, in ascending order.
pub fn pending_migrations(
    applied: &Vec<String>,
    available: &Vec<String>,
    target: Option<&String>,
) -> (r: Vec<String>)
    ensures
        r@ == pending_of(available@, last_name(applied@), opt_name(target)),
{
    let ghost glast = last_name(applied@);
    let ghost gtarget = opt_name(target);
    let mut out: Vec<String> = Vec::new();
    let n = available.len();
    let mut i: usize = 0;
    proof {
        assert(available@.take(0) =~= Seq::<String>::empty());
    }
    while i < n
        invariant
            i <= n,
            n == available@.len(),
            glast == last_name(applied@),
            gtarget == opt_name(target),
            out@ == pending_of(available@.take(i as int), glast, gtarget),
        decreases n - i,
    {
        let m = &available[i];
        let after_last = if applied.len() == 0 {
            true
        } else {
            name_lt(applied[applied.len() - 1].as_str(), m.as_str())
        };
        let within_target = match target {
            Some(t) => name_le(m.as_str(), t.as_str()),
            None => true,
        };
        if after_last && within_target {
            out.push(m.clone());
        }
        proof {
            let s1 = available@.take(i as int + 1);
            assert(s1.drop_last() =~= available@.take(i as int));
            assert(s1.last() == available@[i as int]);
            assert((after_last && within_target) == migration_selected(
                available@[i as int]@,
                glast,
                gtarget,
            ));
        }
        i = i + 1;
    }
    proof {
        assert(available@.take(n as int) =~= available@);
    }
    out
}

/// Records a run's applied migrations, in order, after those already
/// recorded.
pub fn record_applied(applied: &mut Vec<String>, ran: &Vec<String>)
    ensures
        final(applied)@ == old(applied)@ + ran@,
{
    let n = ran.len();
    let mut i: usize = 0;
    proof {
        assert(old(applied)@ + ran@.take(0) =~= old(applied)@);
    }
    while i < n
        invariant
            i <= n,
            n == ran@.len(),
            applied@ == old(applied)@ + ran@.take(i as int),
        decreases n - i,
    {
        applied.push(ran[i].clone());
        proof {
            assert(old(applied)@ + ran@.take(i as int + 1) =~= (old(applied)@ + ran@.take(
                i as int,
            )).push(ran@[i as int]));
        }
        i = i + 1;
    }
    proof {
        assert(ran@.take(n as int) =~= ran@);
    }
}

/// Plans and records one tenant's migration run: determines the pending set,
/// records it as applied, and returns the names that ran, in order.
pub fn apply_pending(
    applied: &mut Vec<String>,
    available: &Vec<String>,
    target: Option<&String>,
) -> (ran: Vec<String>)
    ensures
        ran@ == pending_of(available@, last_name(old(applied)@), opt_name(target)),
        final(applied)@ == old(applied)@ + ran@,
{
    let ran = pending_migrations(applied, available, target);
    record_applied(applied, &ran);
    ran
}

} // verus!
