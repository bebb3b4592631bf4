//! Admission control: a global token bucket shared by every client and a
//! per-client token bucket keyed by the resolved client address. Both must
//! have capacity for a request to be admitted; either bucket's exhaustion
//! rejects the request before any query work runs.

use vstd::prelude::*;
use vstd::arithmetic::div_mod::{
    lemma_fundamental_div_mod,
    lemma_div_is_ordered,
    lemma_div_multiples_vanish,
    lemma_mod_bound,
};

verus! {

/// The outcome of admission control for one request.
#[derive(Clone, Copy, PartialEq, Eq, Structural, Debug)]
pub enum Admission {
    Admitted,
    Rejected,
}

/// A token bucket: `capacity` is the burst allowance, one token
/// replenishes every `interval_ms` milliseconds, and replenishment has
/// been accounted up to `last_refill_ms`.
#[derive(Clone, Copy, PartialEq, Eq, Structural, Debug)]
pub struct TokenBucket {
    pub capacity: u64,
    pub tokens: u64,
    pub interval_ms: u64,
    pub last_refill_ms: u64,
}

/// The bucket after accounting all replenishment up to `now`: one token
/// per whole elapsed interval, clamped at capacity; the accounted time
/// advances by exactly the intervals granted.
pub open spec fn spec_refill(b: TokenBucket, now: u64) -> TokenBucket {
    if now <= b.last_refill_ms {
        b
    } else {
        let add = ((now - b.last_refill_ms) as int) / (b.interval_ms as int);
        TokenBucket {
            capacity: b.capacity,
            tokens: if b.tokens + add <= b.capacity {
                (b.tokens + add) as u64
            } else {
                b.capacity
            },
            interval_ms: b.interval_ms,
            last_refill_ms: (b.last_refill_ms + add * b.interval_ms) as u64,
        }
    }
}

/// One admission attempt at time `now`: replenish, then spend a token if
/// one is available.
pub open spec fn spec_try_admit(b: TokenBucket, now: u64) -> (Admission, TokenBucket) {
    let r = spec_refill(b, now);
    if r.tokens > 0 {
        (
            Admission::Admitted,
            TokenBucket {
                capacity: r.capacity,
                tokens: (r.tokens - 1) as u64,
                interval_ms: r.interval_ms,
                last_refill_ms: r.last_refill_ms,
            },
        )
    } else {
        (Admission::Rejected, r)
    }
}

impl TokenBucket {
    /// Replenishment is timed (no division by zero) and the bucket never
    /// holds more than its burst capacity.
    pub open spec fn wf(self) -> bool {
        self.interval_ms >= 1 && self.tokens <= self.capacity
    }

    /// A fresh bucket starts full, accounted from `now`.
    pub open spec fn spec_new(capacity: u64, interval_ms: u64, now: u64) -> TokenBucket {
        TokenBucket { capacity, tokens: capacity, interval_ms, last_refill_ms: now }
    }

    /// Builds a fresh, full bucket.
    pub fn new(capacity: u64, interval_ms: u64, now: u64) -> (b: TokenBucket)
        requires
            interval_ms >= 1,
        ensures
            b == TokenBucket::spec_new(capacity, interval_ms, now),
            b.wf(),
    {
        TokenBucket { capacity, tokens: capacity, interval_ms, last_refill_ms: now }
    }

    /// Accounts replenishment up to `now`.
    pub fn refill(&mut self, now: u64)
        requires
            old(self).wf(),
        ensures
            *final(self) == spec_refill(*old(self), now),
            final(self).wf(),
    {
        if now > self.last_refill_ms {
            let elapsed = now - self.last_refill_ms;
            let add = elapsed / self.interval_ms;
            proof {
                let x = elapsed as int;
                let dd = self.interval_ms as int;
                assert(dd >= 1);
                lemma_fundamental_div_mod(x, dd);
                lemma_mod_bound(x, dd);
                assert(x == dd * (x / dd) + x % dd);
                assert(0 <= x % dd);
                assert(dd * (x / dd) <= x);
                assert(add == x / dd);
                assert(add * dd == dd * (x / dd)) by (nonlinear_arith)
                    requires
                        add == x / dd,
                ;
                assert(add * self.interval_ms <= elapsed);
            }
            self.last_refill_ms = self.last_refill_ms + add * self.interval_ms;
            if add >= self.capacity - self.tokens {
                self.tokens = self.capacity;
            } else {
                self.tokens = self.tokens + add;
            }
        }
    }

    /// Attempts to admit one request at time `now`: replenishes, then
    /// spends a token if one is available; rejects on an empty bucket.
    pub fn try_admit(&mut self, now: u64) -> (r: Admission)
        requires
            old(self).wf(),
        ensures
            r == spec_try_admit(*old(self), now).0,
            *final(self) == spec_try_admit(*old(self), now).1,
            final(self).wf(),
            (r == Admission::Admitted) == (spec_refill(*old(self), now).tokens > 0),
    {
        self.refill(now);
        if self.tokens > 0 {
            self.tokens = self.tokens - 1;
            Admission::Admitted
        } else {
            Admission::Rejected
        }
    }
}

/// The outcome of running a sequence of admission attempts, given their
/// times: the final bucket and how many were admitted.
pub open spec fn spec_run_bucket(b: TokenBucket, times: Seq<u64>) -> (TokenBucket, int)
    decreases times.len(),
{
    if times.len() == 0 {
        (b, 0)
    } else {
        let step = spec_try_admit(b, times[0]);
        let rest = spec_run_bucket(step.1, times.drop_first());
        (rest.0, rest.1 + if step.0 == Admission::Admitted {
            1int
        } else {
            0int
        })
    }
}

/// Sustained volume cannot beat the ceiling: over any run of requests at
/// nondecreasing times, a bucket admits at most its starting tokens plus
/// one request per whole interval elapsed; all excess is rejected,
/// regardless of who sent it.
pub proof fn lemma_bucket_throughput(b: TokenBucket, times: Seq<u64>)
    requires
        b.wf(),
        times.len() > 0,
        forall|i: int| 0 <= i < times.len() ==> b.last_refill_ms <= #[trigger] times[i],
        forall|i: int, j: int| 0 <= i <= j < times.len() ==> times[i] <= times[j],
    ensures
        spec_run_bucket(b, times).1 <= b.tokens + (times.last() - b.last_refill_ms) / (
        b.interval_ms as int),
    decreases times.len(),
{
    let d = b.interval_ms as int;
    let t0 = times[0];
    let tend = times.last() as int;
    let step = spec_try_admit(b, t0);
    let r = spec_refill(b, t0);
    let b1 = step.1;
    let a: int = if step.0 == Admission::Admitted {
        1
    } else {
        0
    };
    // Refill accounting: tokens grow by at most the granted intervals and
    // the accounted time advances by exactly those intervals.
    if t0 > b.last_refill_ms {
        let elapsed = t0 - b.last_refill_ms;
        let add = elapsed / d;
        lemma_fundamental_div_mod(elapsed, d);
        lemma_mod_bound(elapsed, d);
        lemma_div_is_ordered(0, elapsed, d);
        assert(0int / d == 0) by {
            lemma_div_multiples_vanish(0, d);
        }
        assert(add >= 0);
        assert(add * d == d * add) by (nonlinear_arith);
        assert(d * (elapsed / d) <= elapsed);
        assert(add * d <= elapsed);
        assert(r.last_refill_ms == b.last_refill_ms + add * d);
        assert(r.last_refill_ms <= t0);
        assert(r.tokens <= b.tokens + add);
        lemma_div_multiples_vanish(add, d);
        assert((r.last_refill_ms - b.last_refill_ms) / d == add);
    } else {
        assert(r == b);
        assert((r.last_refill_ms - b.last_refill_ms) / d == 0) by {
            lemma_div_multiples_vanish(0, d);
        }
    }
    assert(a + b1.tokens <= b.tokens + (r.last_refill_ms - b.last_refill_ms) / d);
    assert(b1.last_refill_ms == r.last_refill_ms);
    assert(b1.last_refill_ms <= t0);
    let x = b1.last_refill_ms - b.last_refill_ms;
    if times.len() == 1 {
        assert(times.drop_first().len() == 0);
        assert(spec_run_bucket(b1, times.drop_first()).1 == 0);
        assert(spec_run_bucket(b, times).1 == a);
        assert(tend == t0);
        lemma_div_is_ordered(x, tend - b.last_refill_ms, d);
        assert(x / d <= (tend - b.last_refill_ms) / d);
        assert(b1.tokens >= 0);
        assert(a <= b.tokens + x / d);
    } else {
        let rest = times.drop_first();
        assert(forall|i: int| 0 <= i < rest.len() ==> b1.last_refill_ms <= #[trigger] rest[i]);
        assert(forall|i: int, j: int| 0 <= i <= j < rest.len() ==> rest[i] <= rest[j]);
        lemma_bucket_throughput(b1, rest);
        assert(rest.last() == times.last());
        let y = tend - b1.last_refill_ms;
        assert(y >= 0);
        // Division is superadditive over nonnegative parts:
        // x / d + y / d <= (x + y) / d.
        lemma_fundamental_div_mod(x, d);
        lemma_fundamental_div_mod(y, d);
        lemma_mod_bound(x, d);
        lemma_mod_bound(y, d);
        assert(x + y >= d * (x / d + y / d)) by {
            assert(d * (x / d + y / d) == d * (x / d) + d * (y / d)) by (nonlinear_arith);
        }
        lemma_div_is_ordered(d * (x / d + y / d), x + y, d);
        lemma_div_multiples_vanish(x / d + y / d, d);
        assert(x / d + y / d <= (x + y) / d);
        assert(spec_run_bucket(b, times).1 == spec_run_bucket(b1, rest).1 + a);
        assert(spec_run_bucket(b1, rest).1 <= b1.tokens + y / d);
        assert(a + b1.tokens <= b.tokens + x / d);
        assert(x + y == tend - b.last_refill_ms);
        assert(spec_run_bucket(b, times).1 <= b.tokens + (x + y) / d);
    }
}

/// The per-client table: which bucket, if any, is stored under a key.
pub open spec fn spec_find_client(s: Seq<(u64, TokenBucket)>, key: u64) -> Option<TokenBucket>
    decreases s.len(),
{
    if s.len() == 0 {
        None
    } else if s[0].0 == key {
        Some(s[0].1)
    } else {
        spec_find_client(s.drop_first(), key)
    }
}

/// The per-client table with `key`'s bucket replaced (or appended when the
/// key is new), all other entries untouched.
pub open spec fn spec_store_client(s: Seq<(u64, TokenBucket)>, key: u64, b: TokenBucket) -> Seq<
    (u64, TokenBucket),
>
    decreases s.len(),
{
    if s.len() == 0 {
        seq![(key, b)]
    } else if s[0].0 == key {
        seq![(key, b)] + s.drop_first()
    } else {
        seq![s[0]] + spec_store_client(s.drop_first(), key, b)
    }
}

/// Storing under one key changes what is found under that key and nothing
/// else.
pub proof fn lemma_find_store(s: Seq<(u64, TokenBucket)>, key: u64, b: TokenBucket, k: u64)
    ensures
        spec_find_client(spec_store_client(s, key, b), k) == if k == key {
            Some(b)
        } else {
            spec_find_client(s, k)
        },
    decreases s.len(),
{
    let t = spec_store_client(s, key, b);
    if s.len() == 0 {
        assert(t == seq![(key, b)]);
        assert(t[0] == (key, b));
        if k == key {
            assert(spec_find_client(t, k) == Some(b));
        } else {
            assert(t.drop_first() =~= Seq::<(u64, TokenBucket)>::empty());
            assert(spec_find_client(t.drop_first(), k) is None);
            assert(spec_find_client(t, k) is None);
        }
    } else if s[0].0 == key {
        assert(t[0] == (key, b));
        assert(t.drop_first() =~= s.drop_first());
        if k == key {
            assert(spec_find_client(t, k) == Some(b));
        } else {
            assert(spec_find_client(t, k) == spec_find_client(s.drop_first(), k));
            assert(spec_find_client(s, k) == spec_find_client(s.drop_first(), k));
        }
    } else {
        assert(t[0] == s[0]);
        assert(t.drop_first() =~= spec_store_client(s.drop_first(), key, b));
        lemma_find_store(s.drop_first(), key, b, k);
        if s[0].0 == k {
            assert(k != key);
            assert(spec_find_client(t, k) == Some(s[0].1));
            assert(spec_find_client(s, k) == Some(s[0].1));
        } else {
            assert(spec_find_client(t, k) == spec_find_client(
                spec_store_client(s.drop_first(), key, b),
                k,
            ));
            assert(spec_find_client(s, k) == spec_find_client(s.drop_first(), k));
        }
    }
}

/// A key found at a position, with no earlier occurrence, is what the
/// table lookup returns.
pub proof fn lemma_find_at_index(s: Seq<(u64, TokenBucket)>, key: u64, i: int)
    requires
        0 <= i < s.len(),
        s[i].0 == key,
        forall|j: int| 0 <= j < i ==> s[j].0 != key,
    ensures
        spec_find_client(s, key) == Some(s[i].1),
    decreases i,
{
    if i > 0 {
        lemma_find_at_index(s.drop_first(), key, i - 1);
    }
}

/// A key occurring nowhere is not found.
pub proof fn lemma_find_absent(s: Seq<(u64, TokenBucket)>, key: u64)
    requires
        forall|j: int| 0 <= j < s.len() ==> (#[trigger] s[j]).0 != key,
    ensures
        spec_find_client(s, key) is None,
    decreases s.len(),
{
    if s.len() > 0 {
        lemma_find_absent(s.drop_first(), key);
    }
}

/// Replacing the entry at the key's first position is exactly the store
/// operation.
pub proof fn lemma_store_at_index(s: Seq<(u64, TokenBucket)>, key: u64, b: TokenBucket, i: int)
    requires
        0 <= i < s.len(),
        s[i].0 == key,
        forall|j: int| 0 <= j < i ==> s[j].0 != key,
    ensures
        spec_store_client(s, key, b) == s.update(i, (key, b)),
    decreases i,
{
    if i == 0 {
        assert(spec_store_client(s, key, b) =~= s.update(0, (key, b)));
    } else {
        lemma_store_at_index(s.drop_first(), key, b, i - 1);
        assert(seq![s[0]] + spec_store_client(s.drop_first(), key, b) =~= s.update(i, (key, b)));
    }
}

/// Appending a new key is exactly the store operation.
pub proof fn lemma_store_absent(s: Seq<(u64, TokenBucket)>, key: u64, b: TokenBucket)
    requires
        forall|j: int| 0 <= j < s.len() ==> (#[trigger] s[j]).0 != key,
    ensures
        spec_store_client(s, key, b) == s.push((key, b)),
    decreases s.len(),
{
    if s.len() == 0 {
        assert(spec_store_client(s, key, b) =~= s.push((key, b)));
    } else {
        lemma_store_absent(s.drop_first(), key, b);
        assert(seq![s[0]] + spec_store_client(s.drop_first(), key, b) =~= s.push((key, b)));
    }
}

/// The admission controller: the shared global bucket, the per-client
/// bucket table, the configuration for new client buckets, and whether a
/// trusted upstream proxy supplies the real client address.
pub struct AdmissionController {
    pub global: TokenBucket,
    pub clients: Vec<(u64, TokenBucket)>,
    pub client_capacity: u64,
    pub client_interval_ms: u64,
    pub trust_proxy: bool,
}

/// The mathematical state of an admission controller.
pub ghost struct ControllerModel {
    pub global: TokenBucket,
    pub clients: Seq<(u64, TokenBucket)>,
    pub client_capacity: u64,
    pub client_interval_ms: u64,
    pub trust_proxy: bool,
}

impl View for AdmissionController {
    type V = ControllerModel;

    open spec fn view(&self) -> ControllerModel {
        ControllerModel {
            global: self.global,
            clients: self.clients@,
            client_capacity: self.client_capacity,
            client_interval_ms: self.client_interval_ms,
            trust_proxy: self.trust_proxy,
        }
    }
}

impl ControllerModel {
    /// Buckets are well formed and client keys are unique.
    pub open spec fn wf(self) -> bool {
        &&& self.global.wf()
        &&& self.client_interval_ms >= 1
        &&& forall|i: int, j: int|
            0 <= i < j < self.clients.len() ==> self.clients[i].0 != self.clients[j].0
        &&& forall|i: int| 0 <= i < self.clients.len() ==> (#[trigger] self.clients[i]).1.wf()
    }

    /// The bucket a first-time client starts with: full burst allowance.
    pub open spec fn spec_fresh_bucket(self, now: u64) -> TokenBucket {
        TokenBucket::spec_new(self.client_capacity, self.client_interval_ms, now)
    }

    /// One request through both limiters: the global bucket is consulted
    /// first; only when it admits is the client's own bucket consulted
    /// (and created on first sight). Both must have capacity.
    pub open spec fn spec_decide(self, client: u64, now: u64) -> (Admission, ControllerModel) {
        let g = spec_try_admit(self.global, now);
        let after_global = ControllerModel { global: g.1, ..self };
        if g.0 == Admission::Rejected {
            (Admission::Rejected, after_global)
        } else {
            let b0 = match spec_find_client(self.clients, client) {
                Some(x) => x,
                None => self.spec_fresh_bucket(now),
            };
            let c = spec_try_admit(b0, now);
            (
                c.0,
                ControllerModel {
                    clients: spec_store_client(self.clients, client, c.1),
                    ..after_global
                },
            )
        }
    }
}

/// The key under which a client is rate-limited: the forwarded address
/// when a trusted upstream proxy is configured and supplies one, otherwise
/// the transport-layer address.
pub open spec fn spec_client_key(trust_proxy: bool, raw_addr: u64, forwarded: Option<u64>) -> u64 {
    if trust_proxy {
        match forwarded {
            Some(f) => f,
            None => raw_addr,
        }
    } else {
        raw_addr
    }
}

impl AdmissionController {
    /// Builds a controller with a full global bucket and no known clients.
    pub fn new(
        global_capacity: u64,
        global_interval_ms: u64,
        client_capacity: u64,
        client_interval_ms: u64,
        trust_proxy: bool,
        now: u64,
    ) -> (c: AdmissionController)
        requires
            global_interval_ms >= 1,
            client_interval_ms >= 1,
        ensures
            c@.wf(),
            c@.global == TokenBucket::spec_new(global_capacity, global_interval_ms, now),
            c@.clients =~= Seq::<(u64, TokenBucket)>::empty(),
            c@.client_capacity == client_capacity,
            c@.client_interval_ms == client_interval_ms,
            c@.trust_proxy == trust_proxy,
    {
        AdmissionController {
            global: TokenBucket::new(global_capacity, global_interval_ms, now),
            clients: Vec::new(),
            client_capacity,
            client_interval_ms,
            trust_proxy,
        }
    }

    /// Resolves the address a request is rate-limited under.
    pub fn client_key(&self, raw_addr: u64, forwarded: Option<u64>) -> (k: u64)
        ensures
            k == spec_client_key(self.trust_proxy, raw_addr, forwarded),
    {
        if self.trust_proxy {
            match forwarded {
                Some(f) => f,
                None => raw_addr,
            }
        } else {
            raw_addr
        }
    }

    /// Decides one request: global ceiling first, then the client's own
    /// ceiling; a rejection by either leaves every other client's bucket
    /// untouched, and a global rejection touches no client bucket at all.
    pub fn decide(&mut self, client: u64, now: u64) -> (r: Admission)
        requires
            old(self)@.wf(),
        ensures
            final(self)@.wf(),
            r == old(self)@.spec_decide(client, now).0,
            final(self)@ == old(self)@.spec_decide(client, now).1,
    {
        let g = self.global.try_admit(now);
        if g == Admission::Rejected {
            return Admission::Rejected;
        }
        let n = self.clients.len();
        let mut i: usize = 0;
        while i < n && self.clients[i].0 != client
            invariant
                0 <= i <= n,
                n == self.clients@.len(),
                forall|j: int| 0 <= j < i ==> (#[trigger] self.clients@[j]).0 != client,
            decreases n - i,
        {
            i = i + 1;
        }
        if i < n {
            let ghost pre = self.clients@;
            let mut bucket = self.clients[i].1;
            proof {
                lemma_find_at_index(pre, client, i as int);
            }
            let d = bucket.try_admit(now);
            let _ = self.clients.remove(i);
            self.clients.insert(i, (client, bucket));
            proof {
                assert(self.clients@ =~= pre.update(i as int, (client, bucket)));
                lemma_store_at_index(pre, client, bucket, i as int);
            }
            d
        } else {
            let ghost pre = self.clients@;
            proof {
                lemma_find_absent(pre, client);
            }
            let mut bucket = TokenBucket::new(self.client_capacity, self.client_interval_ms, now);
            let d = bucket.try_admit(now);
            self.clients.push((client, bucket));
            proof {
                lemma_store_absent(pre, client, bucket);
            }
            d
        }
    }
}

/// The outcome of a run of requests through the controller, each a
/// (client, time) pair: the final state and how many were admitted.
pub open spec fn spec_run_controller(m: ControllerModel, reqs: Seq<(u64, u64)>) -> (
    ControllerModel,
    int,
)
    decreases reqs.len(),
{
    if reqs.len() == 0 {
        (m, 0)
    } else {
        let step = m.spec_decide(reqs[0].0, reqs[0].1);
        let rest = spec_run_controller(step.1, reqs.drop_first());
        (rest.0, rest.1 + if step.0 == Admission::Admitted {
            1int
        } else {
            0int
        })
    }
}

/// The controller admits no request its global bucket would not admit: a
/// run through the controller admits at most what the global bucket alone
/// admits over the same times.
pub proof fn lemma_controller_admits_at_most_global(m: ControllerModel, reqs: Seq<(u64, u64)>)
    ensures
        spec_run_controller(m, reqs).1 <= spec_run_bucket(
            m.global,
            reqs.map_values(|r: (u64, u64)| r.1),
        ).1,
    decreases reqs.len(),
{
    if reqs.len() > 0 {
        let times = reqs.map_values(|r: (u64, u64)| r.1);
        assert(times[0] == reqs[0].1);
        assert(times.drop_first() =~= reqs.drop_first().map_values(|r: (u64, u64)| r.1));
        let step = m.spec_decide(reqs[0].0, reqs[0].1);
        assert(step.1.global == spec_try_admit(m.global, reqs[0].1).1);
        lemma_controller_admits_at_most_global(step.1, reqs.drop_first());
    }
}

/// Sustained volume through the controller is capped by the global
/// ceiling, independent of client identity: over any run of requests at
/// nondecreasing times, at most the starting tokens plus one request per
/// elapsed interval are admitted; the rest are rejected.
pub proof fn lemma_controller_throughput(m: ControllerModel, reqs: Seq<(u64, u64)>)
    requires
        m.global.wf(),
        reqs.len() > 0,
        forall|i: int| 0 <= i < reqs.len() ==> m.global.last_refill_ms <= (#[trigger] reqs[i]).1,
        forall|i: int, j: int| 0 <= i <= j < reqs.len() ==> reqs[i].1 <= reqs[j].1,
    ensures
        spec_run_controller(m, reqs).1 <= m.global.tokens + (reqs.last().1
            - m.global.last_refill_ms) / (m.global.interval_ms as int),
{
    let times = reqs.map_values(|r: (u64, u64)| r.1);
    lemma_controller_admits_at_most_global(m, reqs);
    assert(forall|i: int| 0 <= i < times.len() ==> m.global.last_refill_ms <= #[trigger] times[i]);
    assert(forall|i: int, j: int| 0 <= i <= j < times.len() ==> times[i] <= times[j]);
    lemma_bucket_throughput(m.global, times);
    assert(times.last() == reqs.last().1);
}

/// One client's request never touches another client's bucket: whatever
/// the outcome for client `a`, every other client's stored state is
/// exactly as it was.
pub proof fn lemma_per_client_isolation(m: ControllerModel, a: u64, other: u64, now: u64)
    requires
        a != other,
    ensures
        spec_find_client(m.spec_decide(a, now).1.clients, other) == spec_find_client(
            m.clients,
            other,
        ),
{
    let g = spec_try_admit(m.global, now);
    if g.0 == Admission::Rejected {
    } else {
        let b0 = match spec_find_client(m.clients, a) {
            Some(x) => x,
            None => m.spec_fresh_bucket(now),
        };
        let c = spec_try_admit(b0, now);
        lemma_find_store(m.clients, a, c.1, other);
    }
}

/// Admission depends only on the global bucket, the shared client
/// configuration and the requesting client's own bucket: another client
/// exhausting its ceiling cannot change this client's outcome.
pub proof fn lemma_admission_depends_only_on_own_bucket(
    m1: ControllerModel,
    m2: ControllerModel,
    c: u64,
    now: u64,
)
    requires
        m1.global == m2.global,
        m1.client_capacity == m2.client_capacity,
        m1.client_interval_ms == m2.client_interval_ms,
        spec_find_client(m1.clients, c) == spec_find_client(m2.clients, c),
    ensures
        m1.spec_decide(c, now).0 == m2.spec_decide(c, now).0,
{
}

/// When the global bucket is exhausted, every request is rejected,
/// regardless of which client sent it.
pub proof fn lemma_global_exhaustion_rejects_all(m: ControllerModel, c: u64, now: u64)
    requires
        spec_refill(m.global, now).tokens == 0,
    ensures
        m.spec_decide(c, now).0 == Admission::Rejected,
{
}

} // verus!
