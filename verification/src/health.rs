//! Upstream health registry: which upstream indices are currently considered
//! live. The active health checker overwrites an entry after every probe; the
//! selector path only ever clears an entry, on a connect failure.

use vstd::prelude::*;

verus! {

/// Number of `true` entries of a healthy-flag sequence.
pub open spec fn count_healthy(s: Seq<bool>) -> nat
    decreases s.len(),
{
    if s.len() == 0 {
        0
    } else {
        count_healthy(s.drop_last()) + if s.last() {
            1nat
        } else {
            0nat
        }
    }
}

/// Shared record of upstream liveness, one flag per upstream index of the
/// configured upstream set. `true` means the index is considered healthy;
/// a freshly built registry considers every index healthy.
pub struct HealthRegistry {
    healthy: Vec<bool>,
}

impl View for HealthRegistry {
    type V = Seq<bool>;

    closed spec fn view(&self) -> Seq<bool> {
        self.healthy@
    }
}

impl HealthRegistry {
    /// A registry for `n` upstreams, all initially considered healthy.
    pub fn new(n: usize) -> (r: HealthRegistry)
        ensures
            r@.len() == n,
            forall|i: int| 0 <= i < n ==> r@[i],
    {
        let mut healthy: Vec<bool> = Vec::new();
        let mut k: usize = 0;
        while k < n
            invariant
                k <= n,
                healthy@.len() == k,
                forall|i: int| 0 <= i < k ==> healthy@[i],
            decreases n - k,
        {
            healthy.push(true);
            k = k + 1;
        }
        HealthRegistry { healthy }
    }

    /// How many upstream indices the registry tracks.
    pub fn len(&self) -> (r: usize)
        ensures
            r == self@.len(),
    {
        self.healthy.len()
    }

    /// Record that a probe succeeded or that the index recovered: the entry
    /// is overwritten with "healthy", whatever it held before.
    pub fn mark_healthy(&mut self, i: usize)
        requires
            i < old(self)@.len(),
        ensures
            final(self)@ == old(self)@.update(i as int, true),
    {
        self.healthy.set(i, true);
    }

    /// Record a failed probe or a failed connect attempt: the entry is
    /// overwritten with "unhealthy", whatever it held before.
    pub fn mark_unhealthy(&mut self, i: usize)
        requires
            i < old(self)@.len(),
        ensures
            final(self)@ == old(self)@.update(i as int, false),
    {
        self.healthy.set(i, false);
    }

    /// Whether index `i` is currently considered healthy.
    pub fn is_healthy(&self, i: usize) -> (r: bool)
        requires
            i < self@.len(),
        ensures
            r == self@[i as int],
    {
        self.healthy[i]
    }

    /// The number of indices currently considered healthy.
    pub fn healthy_count(&self) -> (r: usize)
        ensures
            r == count_healthy(self@),
    {
        let n = self.healthy.len();
        let mut count: usize = 0;
        let mut k: usize = 0;
        while k < n
            invariant
                k <= n,
                n == self@.len(),
                count == count_healthy(self@.take(k as int)),
                count <= k,
            decreases n - k,
        {
            proof {
                lemma_count_healthy_take_step(self@, k as int);
            }
            if self.healthy[k] {
                count = count + 1;
            }
            k = k + 1;
        }
        proof {
            assert(self@.take(n as int) =~= self@);
        }
        count
    }
}

/// Counting the healthy entries of a prefix, one entry at a time.
proof fn lemma_count_healthy_take_step(s: Seq<bool>, i: int)
    requires
        0 <= i < s.len(),
    ensures
        count_healthy(s.take(i + 1)) == count_healthy(s.take(i)) + if s[i] {
            1nat
        } else {
            0nat
        },
{
    assert(s.take(i + 1).drop_last() =~= s.take(i));
    assert(s.take(i + 1).last() == s[i]);
}

/// No entry is healthy exactly when the healthy count is zero.
pub proof fn lemma_count_healthy_zero(s: Seq<bool>)
    ensures
        (count_healthy(s) == 0) <==> (forall|i: int| 0 <= i < s.len() ==> !s[i]),
    decreases s.len(),
{
    if s.len() > 0 {
        lemma_count_healthy_zero(s.drop_last());
        assert(forall|i: int| 0 <= i < s.len() - 1 ==> s.drop_last()[i] == s[i]);
        if count_healthy(s) == 0 {
            assert(!s.last());
            assert(forall|i: int| 0 <= i < s.len() ==> !s[i]) by {
                assert(s[s.len() - 1] == s.last());
            }
        }
    }
}

/// Overwriting one entry changes the healthy count by exactly the difference
/// at that entry. In particular, marking a healthy index unhealthy strictly
/// decreases the count, which bounds a failover retry loop.
pub proof fn lemma_count_healthy_update(s: Seq<bool>, i: int, b: bool)
    requires
        0 <= i < s.len(),
    ensures
        count_healthy(s.update(i, b)) == count_healthy(s) - (if s[i] {
            1int
        } else {
            0int
        }) + (if b {
            1int
        } else {
            0int
        }),
    decreases s.len(),
{
    let t = s.update(i, b);
    if i == s.len() - 1 {
        assert(t.drop_last() =~= s.drop_last());
        assert(t.last() == b);
        assert(s.last() == s[i]);
    } else {
        assert(t.drop_last() =~= s.drop_last().update(i, b));
        lemma_count_healthy_update(s.drop_last(), i, b);
        assert(s.drop_last()[i] == s[i]);
        assert(t.last() == s.last());
    }
}

} // verus!
