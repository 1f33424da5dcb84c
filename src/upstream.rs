//! Which upstream servers of a load balancer are believed alive, and the
//! choice of one of them for a new connection.

use vstd::prelude::*;

verus! {

/// How many of the flags are set.
pub open spec fn count_alive(s: Seq<bool>) -> nat
    decreases s.len(),
{
    if s.len() == 0 {
        0
    } else {
        count_alive(s.drop_last()) + if s.last() { 1nat } else { 0nat }
    }
}

proof fn lemma_count_alive_bounded(s: Seq<bool>)
    ensures
        count_alive(s) <= s.len(),
    decreases s.len(),
{
    if s.len() > 0 {
        lemma_count_alive_bounded(s.drop_last());
    }
}

proof fn lemma_count_alive_step(s: Seq<bool>, i: int)
    requires
        0 <= i < s.len(),
    ensures
        count_alive(s.take(i + 1)) == count_alive(s.take(i)) + if s[i] { 1nat } else { 0nat },
{
    assert(s.take(i + 1).drop_last() =~= s.take(i));
}

proof fn lemma_count_alive_update(s: Seq<bool>, i: int, b: bool)
    requires
        0 <= i < s.len(),
    ensures
        count_alive(s.update(i, b)) + (if s[i] { 1nat } else { 0nat }) == count_alive(s) + (if b {
            1nat
        } else {
            0nat
        }),
    decreases s.len(),
{
    if i < s.len() - 1 {
        assert(s.update(i, b).drop_last() =~= s.drop_last().update(i, b));
        lemma_count_alive_update(s.drop_last(), i, b);
    } else {
        assert(s.update(i, b).drop_last() =~= s.drop_last());
    }
}

proof fn lemma_count_alive_prefix(s: Seq<bool>, j: int)
    requires
        0 <= j <= s.len(),
    ensures
        count_alive(s.take(j)) <= count_alive(s),
    decreases s.len(),
{
    if j < s.len() {
        assert(s.take(j) =~= s.drop_last().take(j));
        lemma_count_alive_prefix(s.drop_last(), j);
    } else {
        assert(s.take(j) =~= s);
    }
}

proof fn lemma_count_all_true(n: nat)
    ensures
        count_alive(Seq::new(n, |i: int| true)) == n,
    decreases n,
{
    if n > 0 {
        assert(Seq::new(n, |i: int| true).drop_last() =~= Seq::new((n - 1) as nat, |i: int| true));
        lemma_count_all_true((n - 1) as nat);
    }
}

/// Relies on rand's `StdRng::from_entropy` and `Rng::gen_range`: a value
/// drawn from `0..n`; `gen_range` panics only on an empty range.
#[verifier::external_body]
fn random_below(n: usize) -> (r: usize)
    requires
        n > 0,
    ensures
        r < n,
{
    let mut rng = <rand::rngs::StdRng as rand::SeedableRng>::from_entropy();
    rand::Rng::gen_range(&mut rng, 0..n)
}

pub struct UpstreamSet {
    alive: Vec<bool>,
    alive_count: usize,
}

impl View for UpstreamSet {
    type V = Seq<bool>;

    closed spec fn view(&self) -> Seq<bool> {
        self.alive@
    }
}

impl UpstreamSet {
    /// The kept count of live upstreams is the number of set flags.
    pub closed spec fn wf(&self) -> bool {
        self.alive_count == count_alive(self.alive@)
    }

    /// `n` upstreams, all believed alive.
    pub fn new(n: usize) -> (r: UpstreamSet)
        ensures
            r.wf(),
            r@ == Seq::new(n as nat, |i: int| true),
    {
        let mut alive: Vec<bool> = Vec::new();
        let mut i: usize = 0;
        while i < n
            invariant
                i <= n,
                alive@ == Seq::new(i as nat, |k: int| true),
            decreases n - i,
        {
            alive.push(true);
            i = i + 1;
            assert(alive@ =~= Seq::new(i as nat, |k: int| true));
        }
        proof {
            lemma_count_all_true(n as nat);
        }
        UpstreamSet { alive, alive_count: n }
    }

    /// Number of upstreams believed alive.
    pub fn alive_count(&self) -> (r: usize)
        requires
            self.wf(),
        ensures
            r == count_alive(self@),
    {
        self.alive_count
    }

    /// Sets whether upstream `idx` is believed alive, keeping the count.
    pub fn set_alive(&mut self, idx: usize, alive: bool)
        requires
            old(self).wf(),
            idx < old(self)@.len(),
        ensures
            final(self).wf(),
            final(self)@ == old(self)@.update(idx as int, alive),
    {
        proof {
            lemma_count_alive_update(self.alive@, idx as int, alive);
            lemma_count_alive_bounded(self.alive@.update(idx as int, alive));
            assert(self.alive@.update(idx as int, alive).len() == self.alive@.len());
        }
        let n = self.alive.len();
        if self.alive[idx] != alive {
            if alive {
                assert(self.alive_count + 1 <= n);
                self.alive_count = self.alive_count + 1;
            } else {
                self.alive_count = self.alive_count - 1;
            }
            self.alive.set(idx, alive);
        }
        proof {
            assert(self.alive@ =~= old(self).alive@.update(idx as int, alive));
        }
    }

    /// Index of the live upstream that has `k` live ones before it, or
    /// `None` where fewer than `k + 1` are alive.
    pub fn nth_alive(&self, k: usize) -> (r: Option<usize>)
        requires
            self.wf(),
        ensures
            r is None <==> k >= count_alive(self@),
            r matches Some(i) ==> i < self@.len() && self@[i as int] && count_alive(
                self@.take(i as int),
            ) == k,
    {
        let n = self.alive.len();
        let mut seen: usize = 0;
        let mut i: usize = 0;
        while i < n
            invariant
                n == self@.len(),
                i <= n,
                seen == count_alive(self@.take(i as int)),
                seen <= k,
            decreases n - i,
        {
            proof {
                lemma_count_alive_step(self@, i as int);
            }
            if self.alive[i] {
                if seen == k {
                    proof {
                        lemma_count_alive_prefix(self@, i + 1);
                    }
                    return Some(i);
                }
                seen = seen + 1;
            }
            i = i + 1;
        }
        assert(self@.take(n as int) =~= self@);
        None
    }

    /// Picks a live upstream at random, each with the same chance, or
    /// returns `None` when none is alive.
    pub fn pick_known_alive_upstream(&self) -> (r: Option<usize>)
        requires
            self.wf(),
        ensures
            r is None <==> count_alive(self@) == 0,
            r matches Some(i) ==> i < self@.len() && self@[i as int],
    {
        if self.alive_count == 0 {
            return None;
        }
        let k = random_below(self.alive_count);
        self.nth_alive(k)
    }
}

/// Whether a health check that got this HTTP status shows the upstream
/// alive: only `200 OK` does.
pub fn health_check_passed(status: u16) -> (r: bool)
    ensures
        r == (status == 200),
{
    status == 200
}

/// Whether a client that has now made `count` requests in the current
/// window is over the limit; a limit of 0 means no limit.
pub fn exceeds_rate_limit(count: usize, max_per_window: usize) -> (r: bool)
    ensures
        r == (max_per_window > 0 && count > max_per_window),
{
    max_per_window > 0 && count > max_per_window
}

} // verus!
