//! Per-client admission control: request counts per client identity within
//! the current window, reset wholesale on a fixed interval by a separate
//! task. A configured maximum of 0 disables rate limiting entirely.

use vstd::prelude::*;

verus! {

/// Whether a call is admitted given the configured maximum and the count of
/// requests the client had already made in the window before this call.
pub open spec fn admit_allowed(max: nat, prior: nat) -> bool {
    max == 0 || prior < max
}

/// A request count after one more request: counts saturate at the machine
/// limit instead of wrapping, so they never decrease within a window.
pub open spec fn next_count(c: nat) -> nat {
    if c < usize::MAX {
        c + 1
    } else {
        c
    }
}

/// The table state after one admit call for `id`: when rate limiting is
/// disabled the table is not consulted; otherwise the client's count grows
/// by one and every other count is untouched.
pub open spec fn spec_admit(m: Map<Seq<char>, nat>, id: Seq<char>, max: nat) -> Map<
    Seq<char>,
    nat,
> {
    if max == 0 {
        m
    } else {
        m.insert(id, next_count(m[id]))
    }
}

/// The table at the start of a window: every client's count is zero.
pub open spec fn empty_window() -> Map<Seq<char>, nat> {
    Map::new(|id: Seq<char>| true, |id: Seq<char>| 0nat)
}

/// The count recorded for `id` in an association list of per-client counts:
/// the count of the first entry whose key is `id`, or zero if there is none.
pub open spec fn lookup_count(s: Seq<(String, usize)>, id: Seq<char>) -> nat
    decreases s.len(),
{
    if s.len() == 0 {
        0
    } else if s[0].0@ == id {
        s[0].1 as nat
    } else {
        lookup_count(s.drop_first(), id)
    }
}

/// No two entries record the same client.
pub open spec fn unique_keys(s: Seq<(String, usize)>) -> bool {
    forall|j: int, k: int|
        0 <= j < k < s.len() ==> (#[trigger] s[j]).0@ != (#[trigger] s[k]).0@
}

/// Request counts per client identity within the current window, together
/// with the configured per-window maximum. Viewed as a total map from client
/// identity to count, where an absent client counts as zero.
pub struct RateWindow {
    max: usize,
    counts: Vec<(String, usize)>,
}

impl View for RateWindow {
    type V = Map<Seq<char>, nat>;

    closed spec fn view(&self) -> Map<Seq<char>, nat> {
        Map::new(|id: Seq<char>| true, |id: Seq<char>| lookup_count(self.counts@, id))
    }
}

impl RateWindow {
    /// The association list holds each client at most once.
    pub closed spec fn wf(&self) -> bool {
        unique_keys(self.counts@)
    }

    /// The configured maximum number of requests per client per window.
    pub closed spec fn spec_max(&self) -> nat {
        self.max as nat
    }

    /// An empty window with the given per-client maximum (0 = unlimited).
    pub fn new(max: usize) -> (r: RateWindow)
        ensures
            r.wf(),
            r.spec_max() == max,
            r@ == empty_window(),
    {
        let r = RateWindow { max, counts: Vec::new() };
        proof {
            assert(r@ =~= empty_window());
        }
        r
    }

    /// The configured maximum, as configured at construction.
    pub fn max_requests(&self) -> (r: usize)
        ensures
            r == self.spec_max(),
    {
        self.max
    }

    /// Count one request by client `id` and say whether it is admitted: a
    /// client is rejected exactly when its count before this call had
    /// already reached the maximum. With a maximum of 0 every call is
    /// admitted and the table is left untouched.
    pub fn admit_request(&mut self, id: &String) -> (r: bool)
        requires
            old(self).wf(),
        ensures
            final(self).wf(),
            final(self).spec_max() == old(self).spec_max(),
            r == admit_allowed(old(self).spec_max(), old(self)@[id@]),
            final(self)@ == spec_admit(old(self)@, id@, old(self).spec_max()),
    {
        if self.max == 0 {
            return true;
        }
        let ghost m0 = self@;
        let n = self.counts.len();
        let mut i: usize = 0;
        while i < n
            invariant
                i <= n,
                n == self.counts@.len(),
                self.counts@ == old(self).counts@,
                self.max == old(self).max,
                self.max > 0,
                self@ == m0,
                m0 == old(self)@,
                self.wf(),
                forall|k: int| 0 <= k < i ==> (#[trigger] self.counts@[k]).0@ != id@,
            decreases n - i,
        {
            let entry = &self.counts[i];
            if entry.0 == *id {
                let c = entry.1;
                let c1 = if c < usize::MAX {
                    c + 1
                } else {
                    c
                };
                proof {
                    lemma_lookup_first_match(self.counts@, i as int, id@);
                    lemma_lookup_update(self.counts@, i as int, (*id, c1));
                }
                self.counts.set(i, (id.clone(), c1));
                proof {
                    assert(self@ =~= spec_admit(m0, id@, old(self).spec_max()));
                }
                return c < self.max;
            }
            i = i + 1;
        }
        proof {
            lemma_lookup_absent(self.counts@, id@);
            lemma_lookup_push(self.counts@, (*id, 1));
        }
        self.counts.push((id.clone(), 1));
        proof {
            assert(self@ =~= spec_admit(m0, id@, old(self).spec_max()));
        }
        true
    }

    /// Start a fresh window: every client's count drops back to zero. The
    /// configured maximum is kept.
    pub fn reset_all(&mut self)
        ensures
            final(self).wf(),
            final(self).spec_max() == old(self).spec_max(),
            final(self)@ == empty_window(),
    {
        self.counts = Vec::new();
        proof {
            assert(self@ =~= empty_window());
        }
    }
}

/// If no entry before position `i` records `id` and the entry at `i` does,
/// the recorded count is the count at `i`.
proof fn lemma_lookup_first_match(s: Seq<(String, usize)>, i: int, id: Seq<char>)
    requires
        0 <= i < s.len(),
        s[i].0@ == id,
        forall|k: int| 0 <= k < i ==> (#[trigger] s[k]).0@ != id,
    ensures
        lookup_count(s, id) == s[i].1 as nat,
    decreases i,
{
    if i > 0 {
        lemma_lookup_first_match(s.drop_first(), i - 1, id);
    }
}

/// If no entry records `id`, the recorded count is zero.
proof fn lemma_lookup_absent(s: Seq<(String, usize)>, id: Seq<char>)
    requires
        forall|k: int| 0 <= k < s.len() ==> (#[trigger] s[k]).0@ != id,
    ensures
        lookup_count(s, id) == 0,
    decreases s.len(),
{
    if s.len() > 0 {
        lemma_lookup_absent(s.drop_first(), id);
    }
}

/// Replacing the entry at `i` by one with the same key changes only the
/// count recorded for that key.
proof fn lemma_lookup_update_one(s: Seq<(String, usize)>, i: int, p: (String, usize), id: Seq<
    char,
>)
    requires
        unique_keys(s),
        0 <= i < s.len(),
        s[i].0@ == p.0@,
    ensures
        lookup_count(s.update(i, p), id) == if id == p.0@ {
            p.1 as nat
        } else {
            lookup_count(s, id)
        },
    decreases s.len(),
{
    let t = s.update(i, p);
    if i == 0 {
        assert(t.drop_first() =~= s.drop_first());
        assert(t[0] == p);
    } else {
        assert(t.drop_first() =~= s.drop_first().update(i - 1, p));
        assert(t[0] == s[0]);
        assert(s[0].0@ != p.0@);
        assert(unique_keys(s.drop_first())) by {
            assert(forall|k: int|
                0 <= k < s.len() - 1 ==> #[trigger] s.drop_first()[k] == s[k + 1]);
        }
        lemma_lookup_update_one(s.drop_first(), i - 1, p, id);
    }
}

proof fn lemma_lookup_update(s: Seq<(String, usize)>, i: int, p: (String, usize))
    requires
        unique_keys(s),
        0 <= i < s.len(),
        s[i].0@ == p.0@,
    ensures
        unique_keys(s.update(i, p)),
        forall|id: Seq<char>|
            #[trigger] lookup_count(s.update(i, p), id) == if id == p.0@ {
                p.1 as nat
            } else {
                lookup_count(s, id)
            },
{
    let t = s.update(i, p);
    assert(forall|k: int| 0 <= k < s.len() && k != i ==> t[k] == s[k]);
    assert forall|id: Seq<char>|
        #[trigger] lookup_count(t, id) == if id == p.0@ {
            p.1 as nat
        } else {
            lookup_count(s, id)
        } by {
        lemma_lookup_update_one(s, i, p, id);
    }
}

/// Appending an entry for a key that no entry records changes only the
/// count recorded for that key.
proof fn lemma_lookup_push_one(s: Seq<(String, usize)>, p: (String, usize), id: Seq<char>)
    requires
        forall|k: int| 0 <= k < s.len() ==> (#[trigger] s[k]).0@ != p.0@,
    ensures
        lookup_count(s.push(p), id) == if id == p.0@ {
            p.1 as nat
        } else {
            lookup_count(s, id)
        },
    decreases s.len(),
{
    let t = s.push(p);
    if s.len() == 0 {
        assert(t[0] == p);
        assert(t.drop_first() =~= Seq::<(String, usize)>::empty());
        assert(lookup_count(t.drop_first(), id) == 0);
        assert(lookup_count(s, id) == 0);
        if id == p.0@ {
            assert(lookup_count(t, id) == p.1 as nat);
        } else {
            assert(lookup_count(t, id) == lookup_count(t.drop_first(), id));
        }
    } else {
        assert(t[0] == s[0]);
        assert(t.drop_first() =~= s.drop_first().push(p));
        assert(forall|k: int| 0 <= k < s.len() - 1 ==> #[trigger] s.drop_first()[k] == s[k + 1]);
        lemma_lookup_push_one(s.drop_first(), p, id);
        if id == s[0].0@ {
            assert(lookup_count(t, id) == s[0].1 as nat);
            assert(lookup_count(s, id) == s[0].1 as nat);
        } else {
            assert(lookup_count(t, id) == lookup_count(t.drop_first(), id));
            assert(lookup_count(s, id) == lookup_count(s.drop_first(), id));
        }
    }
}

proof fn lemma_lookup_push(s: Seq<(String, usize)>, p: (String, usize))
    requires
        unique_keys(s),
        forall|k: int| 0 <= k < s.len() ==> (#[trigger] s[k]).0@ != p.0@,
    ensures
        unique_keys(s.push(p)),
        forall|id: Seq<char>|
            #[trigger] lookup_count(s.push(p), id) == if id == p.0@ {
                p.1 as nat
            } else {
                lookup_count(s, id)
            },
{
    let t = s.push(p);
    assert forall|id: Seq<char>|
        #[trigger] lookup_count(t, id) == if id == p.0@ {
            p.1 as nat
        } else {
            lookup_count(s, id)
        } by {
        lemma_lookup_push_one(s, p, id);
    }
}

/// The table after `j` admit calls for the same client `id`, starting from
/// a fresh window, with no reset in between.
pub open spec fn window_after_admits(id: Seq<char>, max: nat, j: nat) -> Map<Seq<char>, nat>
    decreases j,
{
    if j == 0 {
        empty_window()
    } else {
        spec_admit(window_after_admits(id, max, (j - 1) as nat), id, max)
    }
}

/// With rate limiting enabled, `j` admit calls for one client within one
/// window drive its count to exactly `j`.
pub proof fn lemma_window_count(id: Seq<char>, max: nat, j: nat)
    requires
        max > 0,
        j <= usize::MAX,
    ensures
        window_after_admits(id, max, j)[id] == j,
    decreases j,
{
    if j > 0 {
        lemma_window_count(id, max, (j - 1) as nat);
    }
}

/// Law: with limit `max > 0`, the admit call made after `j` earlier calls
/// for the same client within one window is admitted exactly when `j < max`
/// — so of `max + 1` calls the first `max` are admitted and every later one
/// is rejected — and after a wholesale reset the client's next call is
/// admitted again.
pub proof fn lemma_rate_limit_window(id: Seq<char>, max: nat, j: nat)
    requires
        max > 0,
        j <= usize::MAX,
    ensures
        admit_allowed(max, window_after_admits(id, max, j)[id]) <==> j < max,
        admit_allowed(max, empty_window()[id]),
{
    lemma_window_count(id, max, j);
}

/// Law: with a configured maximum of 0, every admit call is admitted,
/// whatever count the table holds for the client.
pub proof fn lemma_rate_limit_disabled(m: Map<Seq<char>, nat>, id: Seq<char>)
    ensures
        admit_allowed(0, m[id]),
{
}

} // verus!
