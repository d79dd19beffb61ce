//! Upstream selection: pick a live upstream index uniformly at random for a
//! new outbound connection, and the passive-failure law that once every index
//! has failed a connect attempt, selection reports all upstreams down until a
//! probe marks one healthy again.

use vstd::prelude::*;

use crate::health::HealthRegistry;
use crate::health::count_healthy;
use crate::health::lemma_count_healthy_update;
use crate::health::lemma_count_healthy_zero;

verus! {

/// Relies on rand::random_range: a draw from the non-empty range `0..n`
/// returns a value inside it, uniformly distributed.
#[verifier::external_body]
fn random_below(n: usize) -> (r: usize)
    requires
        n > 0,
    ensures
        r < n,
{
    rand::random_range(0..n)
}

/// The indices the registry currently considers healthy, in increasing order.
pub fn healthy_indices(reg: &HealthRegistry) -> (v: Vec<usize>)
    ensures
        v@.len() == count_healthy(reg@),
        forall|k: int| 0 <= k < v@.len() ==> v@[k] < reg@.len() && reg@[v@[k] as int],
{
    let n = reg.len();
    let mut v: Vec<usize> = Vec::new();
    let mut i: usize = 0;
    while i < n
        invariant
            i <= n,
            n == reg@.len(),
            v@.len() == count_healthy(reg@.take(i as int)),
            forall|k: int| 0 <= k < v@.len() ==> v@[k] < i && reg@[v@[k] as int],
        decreases n - i,
    {
        proof {
            assert(reg@.take(i + 1).drop_last() =~= reg@.take(i as int));
            assert(reg@.take(i + 1).last() == reg@[i as int]);
        }
        if reg.is_healthy(i) {
            v.push(i);
        }
        i = i + 1;
    }
    proof {
        assert(reg@.take(n as int) =~= reg@);
    }
    v
}

/// Pick a healthy upstream index for a new outbound connection, uniformly at
/// random among the indices the registry currently considers healthy.
/// Returns `None` exactly when no index is healthy (all upstreams down).
pub fn select_upstream(reg: &HealthRegistry) -> (r: Option<usize>)
    ensures
        match r {
            Some(i) => i < reg@.len() && reg@[i as int] && count_healthy(reg@) > 0,
            None => count_healthy(reg@) == 0,
        },
{
    let candidates = healthy_indices(reg);
    if candidates.len() == 0 {
        None
    } else {
        let k = random_below(candidates.len());
        Some(candidates[k])
    }
}

/// The registry state after a sequence of connect-failure events, each naming
/// the upstream index whose connect attempt failed.
pub open spec fn apply_connect_failures(s: Seq<bool>, fails: Seq<int>) -> Seq<bool>
    decreases fails.len(),
{
    if fails.len() == 0 {
        s
    } else {
        apply_connect_failures(s, fails.drop_last()).update(fails.last(), false)
    }
}

/// Connect failures only ever clear entries: afterwards an index is healthy
/// only if it was healthy before and no failure named it.
pub proof fn lemma_connect_failures_pointwise(s: Seq<bool>, fails: Seq<int>)
    requires
        forall|k: int| 0 <= k < fails.len() ==> 0 <= #[trigger] fails[k] < s.len(),
    ensures
        apply_connect_failures(s, fails).len() == s.len(),
        forall|i: int|
            0 <= i < s.len() ==> #[trigger] apply_connect_failures(s, fails)[i] == if fails.contains(
                i,
            ) {
                false
            } else {
                s[i]
            },
    decreases fails.len(),
{
    if fails.len() > 0 {
        let pre = fails.drop_last();
        assert(forall|k: int| 0 <= k < pre.len() ==> #[trigger] pre[k] == fails[k]);
        lemma_connect_failures_pointwise(s, pre);
        assert forall|i: int| 0 <= i < s.len() implies #[trigger] apply_connect_failures(s, fails)[i]
            == if fails.contains(i) {
            false
        } else {
            s[i]
        } by {
            if fails.contains(i) {
                let k = choose|k: int| 0 <= k < fails.len() && fails[k] == i;
                if i != fails.last() {
                    assert(k < fails.len() - 1);
                    assert(pre[k] == i);
                    assert(pre.contains(i));
                }
            } else {
                assert(i != fails.last());
                assert(!pre.contains(i)) by {
                    if pre.contains(i) {
                        let k = choose|k: int| 0 <= k < pre.len() && pre[k] == i;
                        assert(fails[k] == i);
                    }
                }
            }
        }
    }
}

/// Law: for every sequence of connect-failure events that names every
/// upstream index at least once, the resulting registry has no healthy
/// index, so `select_upstream` must report all upstreams down.
pub proof fn lemma_all_failed_all_down(s: Seq<bool>, fails: Seq<int>)
    requires
        forall|k: int| 0 <= k < fails.len() ==> 0 <= #[trigger] fails[k] < s.len(),
        forall|i: int| 0 <= i < s.len() ==> fails.contains(i),
    ensures
        count_healthy(apply_connect_failures(s, fails)) == 0,
{
    lemma_connect_failures_pointwise(s, fails);
    lemma_count_healthy_zero(apply_connect_failures(s, fails));
}

/// Law: further connect failures never revive an index; a registry with no
/// healthy index stays that way until a probe marks one healthy.
pub proof fn lemma_all_down_stays_down(s: Seq<bool>, fails: Seq<int>)
    requires
        forall|k: int| 0 <= k < fails.len() ==> 0 <= #[trigger] fails[k] < s.len(),
        count_healthy(s) == 0,
    ensures
        count_healthy(apply_connect_failures(s, fails)) == 0,
{
    lemma_count_healthy_zero(s);
    lemma_connect_failures_pointwise(s, fails);
    lemma_count_healthy_zero(apply_connect_failures(s, fails));
}

/// Law: as soon as a probe marks any index healthy, some upstream is
/// healthy again, so `select_upstream` can no longer report all upstreams
/// down.
pub proof fn lemma_recovery_restores_selection(s: Seq<bool>, i: int)
    requires
        0 <= i < s.len(),
    ensures
        count_healthy(s.update(i, true)) > 0,
{
    lemma_count_healthy_update(s, i, true);
    if s[i] {
        lemma_count_healthy_zero(s);
    }
}

} // verus!
