//! Recording health-check verdicts on subscriptions.

use vstd::prelude::*;

use crate::find::{is_first_where, lemma_first_unique};
use crate::models::health::{HealthCheckResult, HealthStatus};
use crate::models::Subscription;
use crate::text::str_eq;

verus! {

/// The subscription with id `id`.
pub open spec fn has_sub_id(id: Seq<char>) -> spec_fn(Subscription) -> bool {
    |s: Subscription| s.id@ == id
}

/// `subs` once one check result is applied: the first subscription with the result's id
/// takes its status and check time, and is paused when the channel is dead; no other
/// subscription changes. A verdict for an unknown id changes nothing.
pub open spec fn apply_health(subs: Seq<Subscription>, r: HealthCheckResult) -> Seq<Subscription> {
    if exists|p: int| is_first_where(subs, has_sub_id(r.subscription_id@), p) {
        let p = choose|p: int| is_first_where(subs, has_sub_id(r.subscription_id@), p);
        subs.update(
            p,
            Subscription {
                health_status: Some(r.status),
                last_health_check: Some(r.checked_at),
                paused: subs[p].paused || r.status == HealthStatus::Dead,
                ..subs[p]
            },
        )
    } else {
        subs
    }
}

/// `subs` after recording all verdicts in order.
pub open spec fn apply_all_health(subs: Seq<Subscription>, results: Seq<HealthCheckResult>) -> Seq<
    Subscription,
>
    decreases results.len(),
{
    if results.len() == 0 {
        subs
    } else {
        apply_health(apply_all_health(subs, results.drop_last()), results.last())
    }
}

/// Records the verdicts on the subscriptions, in order (see `apply_health`). The caller
/// saves the subscriptions afterwards.
pub fn update_subscriptions_health(subscriptions: &mut Vec<Subscription>, results: &[HealthCheckResult])
    ensures
        final(subscriptions)@ == apply_all_health(old(subscriptions)@, results@),
{
    let ghost start = subscriptions@;
    let mut i: usize = 0;
    while i < results.len()
        invariant
            i <= results@.len(),
            subscriptions@ == apply_all_health(start, results@.take(i as int)),
        decreases results@.len() - i,
    {
        assert(results@.take(i + 1).drop_last() =~= results@.take(i as int));
        let r = &results[i];
        let ghost pred = has_sub_id(r.subscription_id@);
        let mut p: usize = 0;
        let mut found = false;
        while p < subscriptions.len()
            invariant
                pred == has_sub_id(r.subscription_id@),
                p <= subscriptions@.len(),
                forall|q: int| 0 <= q < p ==> !pred(#[trigger] subscriptions@[q]),
                found ==> p < subscriptions@.len() && pred(subscriptions@[p as int]),
            ensures
                !found ==> p == subscriptions@.len(),
                found ==> p < subscriptions@.len() && pred(subscriptions@[p as int]),
                forall|q: int| 0 <= q < p ==> !pred(#[trigger] subscriptions@[q]),
            decreases subscriptions@.len() - p,
        {
            if str_eq(subscriptions[p].id.as_str(), r.subscription_id.as_str()) {
                found = true;
                break;
            }
            p += 1;
        }
        let ghost before = subscriptions@;
        if found {
            assert(is_first_where(before, pred, p as int));
            let mut sub = subscriptions.remove(p);
            sub.health_status = Some(r.status);
            sub.last_health_check = Some(r.checked_at.clone());
            if r.status == HealthStatus::Dead {
                sub.paused = true;
            }
            subscriptions.insert(p, sub);
            proof {
                let c = choose|c: int| is_first_where(before, pred, c);
                lemma_first_unique(before, pred, c, p as int);
            }
        } else {
        }
        i += 1;
    }
    assert(results@.take(results@.len() as int) =~= results@);
}

/// A dead verdict pauses the subscription it is about: after recording a list of
/// verdicts whose last one for a subscription is "dead", that subscription is paused
/// and marked dead.
pub proof fn law_dead_verdict_pauses(subs: Seq<Subscription>, results: Seq<HealthCheckResult>, p: int)
    requires
        results.len() > 0,
        results.last().status == HealthStatus::Dead,
        is_first_where(
            apply_all_health(subs, results.drop_last()),
            has_sub_id(results.last().subscription_id@),
            p,
        ),
    ensures
        apply_all_health(subs, results)[p].paused,
        apply_all_health(subs, results)[p].health_status == Some(HealthStatus::Dead),
{
    let before = apply_all_health(subs, results.drop_last());
    let pred = has_sub_id(results.last().subscription_id@);
    let c = choose|c: int| is_first_where(before, pred, c);
    lemma_first_unique(before, pred, c, p);
}


/// The last verdict about a subscription is what it shows: its status and check time
/// are taken over, nothing else about it changes but being paused by a dead verdict,
/// and the other subscriptions are left alone.
pub proof fn law_last_verdict_is_recorded(subs: Seq<Subscription>, results: Seq<HealthCheckResult>, p: int)
    requires
        results.len() > 0,
        is_first_where(
            apply_all_health(subs, results.drop_last()),
            has_sub_id(results.last().subscription_id@),
            p,
        ),
    ensures
        ({
            let before = apply_all_health(subs, results.drop_last());
            let after = apply_all_health(subs, results);
            let r = results.last();
            &&& after.len() == before.len()
            &&& after[p].health_status == Some(r.status)
            &&& after[p].last_health_check == Some(r.checked_at)
            &&& after[p].paused == (before[p].paused || r.status == HealthStatus::Dead)
            &&& after[p].id == before[p].id && after[p].url == before[p].url
                && after[p].channel_name == before[p].channel_name
                && after[p].download_count == before[p].download_count
            &&& forall|q: int| 0 <= q < before.len() && q != p ==> after[q] == before[q]
        }),
{
    let before = apply_all_health(subs, results.drop_last());
    let pred = has_sub_id(results.last().subscription_id@);
    let c = choose|c: int| is_first_where(before, pred, c);
    lemma_first_unique(before, pred, c, p);
}

/// Recording verdicts never un-pauses a subscription, and only a "dead" verdict pauses
/// one: after recording `results`, every subscription keeps its place, one that was
/// paused still is, and one that is paused now either was paused before or received a
/// dead verdict.
pub proof fn law_only_dead_verdicts_change_paused(subs: Seq<Subscription>, results: Seq<HealthCheckResult>)
    ensures
        apply_all_health(subs, results).len() == subs.len(),
        forall|k: int|
            0 <= k < subs.len() ==> {
                let after = #[trigger] apply_all_health(subs, results)[k];
                &&& after.id == subs[k].id
                &&& subs[k].paused ==> after.paused
                &&& after.paused ==> subs[k].paused || exists|t: int|
                    0 <= t < results.len() && results[t].status == HealthStatus::Dead
                        && results[t].subscription_id@ == subs[k].id@
            },
    decreases results.len(),
{
    if results.len() > 0 {
        let rest = results.drop_last();
        law_only_dead_verdicts_change_paused(subs, rest);
        let before = apply_all_health(subs, rest);
        let r = results.last();
        let pred = has_sub_id(r.subscription_id@);
        assert forall|k: int| 0 <= k < subs.len() implies {
            let after = #[trigger] apply_all_health(subs, results)[k];
            &&& after.id == subs[k].id
            &&& subs[k].paused ==> after.paused
            &&& after.paused ==> subs[k].paused || exists|t: int|
                0 <= t < results.len() && results[t].status == HealthStatus::Dead
                    && results[t].subscription_id@ == subs[k].id@
        } by {
            let b = before[k];
            assert(b == apply_all_health(subs, rest)[k]);
            if b.paused && !subs[k].paused {
                let t = choose|t: int|
                    0 <= t < rest.len() && rest[t].status == HealthStatus::Dead
                        && rest[t].subscription_id@ == subs[k].id@;
                assert(results[t] == rest[t]);
            }
            if exists|p: int| is_first_where(before, pred, p) {
                let p = choose|p: int| is_first_where(before, pred, p);
                if p == k && r.status == HealthStatus::Dead {
                    assert(results[results.len() - 1] == r);
                }
            }
        }
    }
}

/// With no dead verdict among them, recording verdicts leaves every subscription's
/// paused flag as it was.
pub proof fn law_no_dead_verdict_keeps_paused(subs: Seq<Subscription>, results: Seq<HealthCheckResult>)
    requires
        forall|t: int| 0 <= t < results.len() ==> results[t].status != HealthStatus::Dead,
    ensures
        forall|k: int| 0 <= k < subs.len() ==> (#[trigger] apply_all_health(subs, results)[k]).paused == subs[k].paused,
{
    law_only_dead_verdicts_change_paused(subs, results);
}

/// Subscription `s` is among those `ids` name, or all are meant (no ids, or an empty
/// list).
pub open spec fn is_health_target(s: Subscription, ids: Option<Seq<String>>) -> bool {
    match ids {
        None => true,
        Some(v) => v.len() == 0 || exists|k: int| 0 <= k < v.len() && (#[trigger] v[k])@ == s.id@,
    }
}

/// The positions, in order, of the subscriptions a health check covers (see
/// `is_health_target`).
pub fn health_check_targets(subs: &Vec<Subscription>, ids: Option<&Vec<String>>) -> (targets: Vec<usize>)
    ensures
        forall|k: int| 0 <= k < targets@.len() ==> (#[trigger] targets@[k]) < subs@.len(),
        forall|a: int, b: int| 0 <= a < b < targets@.len() ==> (#[trigger] targets@[a]) < (#[trigger] targets@[b]),
        forall|i: int|
            0 <= i < subs@.len() ==> (is_health_target(
                #[trigger] subs@[i],
                match ids {
                    Some(v) => Some(v@),
                    None => None,
                },
            ) <==> exists|k: int| 0 <= k < targets@.len() && targets@[k] == i),
{
    let ghost iv = match ids {
        Some(v) => Some(v@),
        None => None,
    };
    let mut targets: Vec<usize> = Vec::new();
    let mut i: usize = 0;
    while i < subs.len()
        invariant
            iv == (match ids {
                Some(v) => Some(v@),
                None => None::<Seq<String>>,
            }),
            i <= subs@.len(),
            forall|k: int| 0 <= k < targets@.len() ==> (#[trigger] targets@[k]) < i,
            forall|a: int, b: int| 0 <= a < b < targets@.len() ==> (#[trigger] targets@[a]) < (#[trigger] targets@[b]),
            forall|j: int|
                0 <= j < i ==> (is_health_target(#[trigger] subs@[j], iv) <==> exists|k: int|
                    0 <= k < targets@.len() && targets@[k] == j),
        decreases subs@.len() - i,
    {
        let take = match ids {
            None => true,
            Some(v) => {
                if v.len() == 0 {
                    true
                } else {
                    let mut found = false;
                    let mut k: usize = 0;
                    while k < v.len()
                        invariant
                            k <= v@.len(),
                            i < subs@.len(),
                            found == exists|q: int| 0 <= q < k && (#[trigger] v@[q])@ == subs@[i as int].id@,
                        decreases v@.len() - k,
                    {
                        if str_eq(v[k].as_str(), subs[i].id.as_str()) {
                            found = true;
                        }
                        k += 1;
                    }
                    found
                }
            },
        };
        let ghost before = targets@;
        if take {
            targets.push(i);
        }
        assert forall|j: int|
            0 <= j < i + 1 implies (is_health_target(#[trigger] subs@[j], iv) <==> exists|k: int|
                0 <= k < targets@.len() && targets@[k] == j) by {
            if j < i {
                if exists|k: int| 0 <= k < before.len() && before[k] == j {
                    let k = choose|k: int| 0 <= k < before.len() && before[k] == j;
                    assert(targets@[k] == j);
                }
                if exists|k: int| 0 <= k < targets@.len() && targets@[k] == j {
                    let k = choose|k: int| 0 <= k < targets@.len() && targets@[k] == j;
                }
            } else {
                if take {
                    assert(targets@[before.len() as int] == j);
                } else {
                    assert forall|k: int| 0 <= k < targets@.len() implies targets@[k] != j by {
                    }
                }
            }
        }
        i += 1;
    }
    targets
}

} // verus!
